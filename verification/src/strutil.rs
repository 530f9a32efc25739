//! Small verified string utilities shared by the parser, the selector and
//! the command builders: byte-to-char decoding, trimming, substring tests,
//! decimal parsing and rendering.
use vstd::prelude::*;
use vstd::string::StrSliceExecFns;

verus! {

/// A byte decoded the way the backend protocol expects: each byte stands
/// for the character with the same code point.
pub open spec fn byte_as_char(b: u8) -> char {
    b as char
}

/// Raw backend bytes decoded byte-for-byte.
pub open spec fn bytes_as_chars(bs: Seq<u8>) -> Seq<char> {
    bs.map_values(|b: u8| byte_as_char(b))
}

/// ASCII whitespace, as `u8::is_ascii_whitespace` defines it.
pub open spec fn is_ws_byte(b: u8) -> bool {
    b == 32 || b == 9 || b == 10 || b == 13 || b == 12
}

/// ASCII whitespace on characters.
pub open spec fn is_ws_char(c: char) -> bool {
    c == ' ' || c == '\t' || c == '\n' || c == '\r' || c == '\x0c'
}

pub fn byte_is_ws(b: u8) -> (r: bool)
    ensures
        r == is_ws_byte(b),
{
    b == 32 || b == 9 || b == 10 || b == 13 || b == 12
}

pub fn char_is_ws(c: char) -> (r: bool)
    ensures
        r == is_ws_char(c),
{
    c == ' ' || c == '\t' || c == '\n' || c == '\r' || c == '\x0c'
}

/// Relies on `String::push`: appends exactly one character.
#[verifier::external_body]
pub fn push_char(s: &mut String, c: char)
    ensures
        final(s)@ == old(s)@.push(c),
{
    s.push(c);
}

/// Decode raw bytes byte-for-byte into characters.
pub fn bytes_to_chars(bs: &Vec<u8>) -> (r: Vec<char>)
    ensures
        r@ == bytes_as_chars(bs@),
{
    let mut r: Vec<char> = Vec::new();
    let mut i: usize = 0;
    while i < bs.len()
        invariant
            i <= bs.len(),
            r@ == bytes_as_chars(bs@.take(i as int)),
        decreases bs.len() - i,
    {
        r.push(bs[i] as char);
        i = i + 1;
        proof {
            assert(bytes_as_chars(bs@.take(i as int)) =~= bytes_as_chars(
                bs@.take(i - 1),
            ).push(byte_as_char(bs@[i - 1])));
        }
    }
    proof {
        assert(bs@.take(bs@.len() as int) =~= bs@);
    }
    r
}

/// The first index of `s` whose byte satisfies `p`.
pub open spec fn first_where(s: Seq<u8>, p: spec_fn(u8) -> bool) -> Option<int>
    decreases s.len(),
{
    if s.len() == 0 {
        Option::None
    } else if p(s.first()) {
        Option::Some(0int)
    } else {
        match first_where(s.drop_first(), p) {
            Option::Some(i) => Option::Some(i + 1),
            Option::None => Option::None,
        }
    }
}

/// The last index of `s` whose byte satisfies `p`.
pub open spec fn last_where(s: Seq<u8>, p: spec_fn(u8) -> bool) -> Option<int>
    decreases s.len(),
{
    if s.len() == 0 {
        Option::None
    } else if p(s.last()) {
        Option::Some(s.len() - 1)
    } else {
        last_where(s.drop_last(), p)
    }
}

/// What `first_where` returns: the least index satisfying `p`, or nothing
/// when no index does.
pub proof fn lemma_first_where(s: Seq<u8>, p: spec_fn(u8) -> bool)
    ensures
        match first_where(s, p) {
            Option::Some(i) => 0 <= i < s.len() && p(s[i]) && forall|j: int|
                0 <= j < i ==> !p(s[j]),
            Option::None => forall|j: int| 0 <= j < s.len() ==> !p(s[j]),
        },
    decreases s.len(),
{
    if s.len() > 0 && !p(s.first()) {
        let t = s.drop_first();
        lemma_first_where(t, p);
        match first_where(t, p) {
            Option::Some(i) => {
                assert(t[i] == s[i + 1]);
                assert forall|j: int| 0 <= j < i + 1 implies !p(s[j]) by {
                    if j > 0 {
                        assert(t[j - 1] == s[j]);
                        assert(!p(t[j - 1]));
                    }
                }
            },
            Option::None => {
                assert forall|j: int| 0 <= j < s.len() implies !p(s[j]) by {
                    if j > 0 {
                        assert(t[j - 1] == s[j]);
                        assert(!p(t[j - 1]));
                    }
                }
            },
        }
    }
}

/// What `last_where` returns: the greatest index satisfying `p`, or
/// nothing when no index does.
pub proof fn lemma_last_where(s: Seq<u8>, p: spec_fn(u8) -> bool)
    ensures
        match last_where(s, p) {
            Option::Some(i) => 0 <= i < s.len() && p(s[i]) && forall|j: int|
                i < j < s.len() ==> !p(s[j]),
            Option::None => forall|j: int| 0 <= j < s.len() ==> !p(s[j]),
        },
    decreases s.len(),
{
    if s.len() > 0 && !p(s.last()) {
        lemma_last_where(s.drop_last(), p);
        assert forall|j: int| 0 <= j < s.drop_last().len() implies s.drop_last()[j] == s[j] by {}
    }
}

/// Copy the byte range `lo .. hi` out of `s`.
pub fn copy_range(s: &Vec<u8>, lo: usize, hi: usize) -> (r: Vec<u8>)
    requires
        lo <= hi <= s@.len(),
    ensures
        r@ == s@.subrange(lo as int, hi as int),
{
    let mut r: Vec<u8> = Vec::new();
    let mut i: usize = lo;
    while i < hi
        invariant
            lo <= i <= hi <= s@.len(),
            r@ == s@.subrange(lo as int, i as int),
        decreases hi - i,
    {
        r.push(s[i]);
        i = i + 1;
        proof {
            assert(s@.subrange(lo as int, i as int) =~= s@.subrange(lo as int, i - 1).push(
                s@[i - 1],
            ));
        }
    }
    r
}

/// Decode the byte range `lo .. hi` of `s` into a string, byte for byte.
pub fn string_of_range(s: &Vec<u8>, lo: usize, hi: usize) -> (r: String)
    requires
        lo <= hi <= s@.len(),
    ensures
        r@ == bytes_as_chars(s@.subrange(lo as int, hi as int)),
{
    let mut r = String::new();
    let mut i: usize = lo;
    while i < hi
        invariant
            lo <= i <= hi <= s@.len(),
            r@ == bytes_as_chars(s@.subrange(lo as int, i as int)),
        decreases hi - i,
    {
        push_char(&mut r, s[i] as char);
        i = i + 1;
        proof {
            assert(bytes_as_chars(s@.subrange(lo as int, i as int)) =~= bytes_as_chars(
                s@.subrange(lo as int, i - 1),
            ).push(byte_as_char(s@[i - 1])));
        }
    }
    r
}

/// `n` occurs in `h` as a contiguous run.
pub open spec fn contains_seq(h: Seq<char>, n: Seq<char>) -> bool {
    exists|i: int| 0 <= i <= h.len() - n.len() && #[trigger] h.subrange(i, i + n.len()) == n
}

/// `h` begins with `n`.
pub open spec fn starts_with_seq(h: Seq<char>, n: Seq<char>) -> bool {
    h.len() >= n.len() && h.subrange(0, n.len() as int) == n
}

/// `h` ends with `n`.
pub open spec fn ends_with_seq(h: Seq<char>, n: Seq<char>) -> bool {
    h.len() >= n.len() && h.subrange(h.len() - n.len(), h.len() as int) == n
}

/// Whether `n` occurs in `h` starting at `i`.
fn matches_at(h: &str, n: &str, i: usize, hl: usize, nl: usize) -> (r: bool)
    requires
        hl == h@.len(),
        nl == n@.len(),
        i + nl <= hl,
    ensures
        r == (h@.subrange(i as int, i + n@.len()) == n@),
{
    let mut j: usize = 0;
    while j < nl
        invariant
            0 <= j <= nl,
            hl == h@.len(),
            nl == n@.len(),
            i + nl <= hl,
            forall|k: int| 0 <= k < j ==> h@[i + k] == n@[k],
        decreases nl - j,
    {
        if h.get_char(i + j) != n.get_char(j) {
            proof {
                assert(h@.subrange(i as int, i + n@.len())[j as int] != n@[j as int]);
            }
            return false;
        }
        j = j + 1;
    }
    proof {
        assert(h@.subrange(i as int, i + n@.len()) =~= n@);
    }
    true
}

/// Whether `n` occurs anywhere in `h`.
pub fn str_contains(h: &str, n: &str) -> (r: bool)
    ensures
        r == contains_seq(h@, n@),
{
    let hl = h.unicode_len();
    let nl = n.unicode_len();
    if nl > hl {
        proof {
            assert(!contains_seq(h@, n@));
        }
        return false;
    }
    if nl == 0 {
        proof {
            assert(h@.subrange(0, 0 + n@.len() as int) =~= n@);
        }
        return true;
    }
    let mut i: usize = 0;
    while i <= hl - nl
        invariant
            1 <= nl <= hl,
            hl == h@.len(),
            nl == n@.len(),
            0 <= i <= hl - nl + 1,
            forall|k: int| 0 <= k < i ==> #[trigger] h@.subrange(k, k + n@.len()) != n@,
        decreases hl - nl + 1 - i,
    {
        if matches_at(h, n, i, hl, nl) {
            return true;
        }
        i = i + 1;
    }
    false
}

/// Whether `h` begins with `n`.
pub fn str_starts_with(h: &str, n: &str) -> (r: bool)
    ensures
        r == starts_with_seq(h@, n@),
{
    let hl = h.unicode_len();
    let nl = n.unicode_len();
    if nl > hl {
        return false;
    }
    matches_at(h, n, 0, hl, nl)
}

/// Whether `h` ends with `n`.
pub fn str_ends_with(h: &str, n: &str) -> (r: bool)
    ensures
        r == ends_with_seq(h@, n@),
{
    let hl = h.unicode_len();
    let nl = n.unicode_len();
    if nl > hl {
        return false;
    }
    matches_at(h, n, hl - nl, hl, nl)
}

/// Whether the two strings hold the same characters.
pub fn str_eq(a: &str, b: &str) -> (r: bool)
    ensures
        r == (a@ == b@),
{
    let al = a.unicode_len();
    let bl = b.unicode_len();
    if al != bl {
        return false;
    }
    let r = matches_at(a, b, 0, al, bl);
    proof {
        assert(a@.subrange(0, a@.len() as int) =~= a@);
    }
    r
}

/// A decimal digit.
pub open spec fn is_digit(c: char) -> bool {
    '0' <= c && c <= '9'
}

/// The value of a decimal digit.
pub open spec fn digit_val(c: char) -> int {
    c as int - 48
}

/// Every character is a decimal digit.
pub open spec fn all_digits(s: Seq<char>) -> bool {
    forall|i: int| 0 <= i < s.len() ==> is_digit(#[trigger] s[i])
}

/// The number a digit string denotes, most significant digit first.
pub open spec fn dec_value(s: Seq<char>) -> int
    decreases s.len(),
{
    if s.len() == 0 {
        0
    } else {
        dec_value(s.drop_last()) * 10 + digit_val(s.last())
    }
}

/// What a token must be to name a number: non-empty, digits only, and
/// within the machine's index range.
pub open spec fn parse_usize_spec(s: Seq<char>) -> Option<int> {
    if s.len() > 0 && all_digits(s) && dec_value(s) <= usize::MAX {
        Option::Some(dec_value(s))
    } else {
        Option::None
    }
}

proof fn lemma_dec_value_nonneg(s: Seq<char>)
    requires
        all_digits(s),
    ensures
        dec_value(s) >= 0,
    decreases s.len(),
{
    if s.len() > 0 {
        assert(all_digits(s.drop_last())) by {
            assert(forall|i: int|
                0 <= i < s.drop_last().len() ==> s.drop_last()[i] == #[trigger] s[i]);
        }
        lemma_dec_value_nonneg(s.drop_last());
    }
}

proof fn lemma_dec_value_prefix(s: Seq<char>, k: int)
    requires
        all_digits(s),
        0 <= k <= s.len(),
    ensures
        dec_value(s) >= dec_value(s.take(k)),
    decreases s.len() - k,
{
    if k < s.len() {
        lemma_dec_value_prefix(s, k + 1);
        let t = s.take(k + 1);
        assert(t.drop_last() =~= s.take(k));
        assert(t.last() == s[k]);
        assert(all_digits(s.take(k))) by {
            assert(forall|i: int|
                0 <= i < s.take(k).len() ==> s.take(k)[i] == #[trigger] s[i]);
        }
        lemma_dec_value_nonneg(s.take(k));
        assert(dec_value(t) == dec_value(s.take(k)) * 10 + digit_val(s[k]));
    } else {
        assert(s.take(k) =~= s);
    }
}

/// Parse a token as a decimal number: digits only, nothing else, and the
/// value must fit the machine's index range.
pub fn parse_usize(s: &str) -> (r: Option<usize>)
    ensures
        match parse_usize_spec(s@) {
            Option::Some(v) => r matches Option::Some(u) && u == v,
            Option::None => r is None,
        },
{
    let n = s.unicode_len();
    if n == 0 {
        return Option::None;
    }
    let mut acc: usize = 0;
    let mut i: usize = 0;
    while i < n
        invariant
            0 <= i <= n,
            n == s@.len(),
            n > 0,
            all_digits(s@.take(i as int)),
            acc == dec_value(s@.take(i as int)),
        decreases n - i,
    {
        let c = s.get_char(i);
        if !(c >= '0' && c <= '9') {
            proof {
                assert(!is_digit(s@[i as int]));
                assert(!all_digits(s@));
            }
            return Option::None;
        }
        let d: usize = (c as u32 as usize) - 48;
        proof {
            assert(s@.take(i + 1).drop_last() =~= s@.take(i as int));
            assert(s@.take(i + 1).last() == s@[i as int]);
            assert(forall|j: int|
                0 <= j < i + 1 ==> #[trigger] s@.take(i + 1)[j] == s@[j]);
        }
        if acc > (usize::MAX - d) / 10 {
            proof {
                vstd::arithmetic::div_mod::lemma_fundamental_div_mod(
                    (usize::MAX - d) as int,
                    10,
                );
                assert(dec_value(s@.take(i + 1)) > usize::MAX);
                if all_digits(s@) {
                    lemma_dec_value_prefix(s@, i + 1);
                }
                assert(all_digits(s@) ==> dec_value(s@) > usize::MAX);
            }
            return Option::None;
        }
        proof {
            vstd::arithmetic::div_mod::lemma_fundamental_div_mod((usize::MAX - d) as int, 10);
        }
        acc = acc * 10 + d;
        i = i + 1;
    }
    proof {
        assert(s@.take(n as int) =~= s@);
    }
    Option::Some(acc)
}

/// The decimal digits of a number, most significant first.
pub open spec fn dec_digits(n: int) -> Seq<char>
    decreases n,
{
    if n <= 9 {
        seq![((48 + (if n >= 0 { n } else { 0 })) as u8) as char]
    } else {
        dec_digits(n / 10).push(((48 + n % 10) as u8) as char)
    }
}

/// A number below the `k`-th power of ten has at most `k` digits.
pub proof fn lemma_dec_digits_len_bound(n: int, k: nat)
    requires
        k >= 1,
        n < vstd::arithmetic::power::pow(10, k),
    ensures
        dec_digits(n).len() <= k,
    decreases k,
{
    if n > 9 {
        reveal(vstd::arithmetic::power::pow);
        assert(vstd::arithmetic::power::pow(10, k) == 10 * vstd::arithmetic::power::pow(
            10,
            (k - 1) as nat,
        ));
        let p = vstd::arithmetic::power::pow(10, (k - 1) as nat) as int;
        assert(n / 10 < p) by {
            vstd::arithmetic::div_mod::lemma_fundamental_div_mod(n, 10);
        }
        assert(k - 1 >= 1) by {
            if k == 1 {
                assert(vstd::arithmetic::power::pow(10, 0nat) == 1);
            }
        }
        lemma_dec_digits_len_bound(n / 10, (k - 1) as nat);
    }
}

/// A machine-sized number has at most twenty digits.
pub proof fn lemma_dec_digits_len_usize(n: usize)
    ensures
        dec_digits(n as int).len() <= 20,
{
    assert(vstd::arithmetic::power::pow(10, 20) == 100000000000000000000) by {
        reveal_with_fuel(vstd::arithmetic::power::pow, 21);
    }
    lemma_dec_digits_len_bound(n as int, 20);
}

/// Render a number in decimal.
pub fn usize_to_string(n: usize) -> (r: String)
    ensures
        r@ == dec_digits(n as int),
{
    let mut v: Vec<char> = Vec::new();
    let mut m: usize = n;
    v.push((48 + (m % 10) as u8) as char);
    m = m / 10;
    proof {
        vstd::arithmetic::div_mod::lemma_fundamental_div_mod(n as int, 10);
        if n <= 9 {
            assert(v@ =~= dec_digits(n as int).reverse());
        } else {
            assert(v@ =~= seq![((48 + n % 10) as u8) as char]);
            assert(dec_digits(n as int) == dec_digits(n as int / 10).push(
                ((48 + n % 10) as u8) as char,
            ));
            assert(dec_digits(m as int) + v@.reverse() =~= dec_digits(n as int));
        }
    }
    while m > 0
        invariant
            (if m > 0 {
                dec_digits(m as int) + v@.reverse()
            } else {
                v@.reverse()
            }) == dec_digits(n as int),
            v@.len() >= 1,
        decreases m,
    {
        let d: u8 = 48 + (m % 10) as u8;
        let ghost old_v = v@;
        let ghost old_m = m as int;
        v.push(d as char);
        m = m / 10;
        proof {
            vstd::arithmetic::div_mod::lemma_fundamental_div_mod(old_m, 10);
            assert(v@.reverse() =~= seq![d as char] + old_v.reverse());
            if old_m <= 9 {
                assert(dec_digits(old_m) =~= seq![d as char]);
                assert(v@.reverse() =~= dec_digits(old_m) + old_v.reverse());
            } else {
                assert(dec_digits(old_m) == dec_digits(old_m / 10).push(d as char));
                assert(dec_digits(old_m / 10) + v@.reverse() =~= dec_digits(old_m)
                    + old_v.reverse());
            }
        }
    }
    let mut r = String::new();
    let mut i: usize = v.len();
    while i > 0
        invariant
            0 <= i <= v@.len(),
            r@ == v@.subrange(i as int, v@.len() as int).reverse(),
        decreases i,
    {
        i = i - 1;
        push_char(&mut r, v[i]);
        proof {
            assert(v@.subrange(i as int, v@.len() as int).reverse() =~= v@.subrange(
                i + 1,
                v@.len() as int,
            ).reverse().push(v@[i as int]));
        }
    }
    proof {
        assert(v@.subrange(0, v@.len() as int) =~= v@);
    }
    r
}

/// The last index of `s` whose character satisfies `p`.
pub open spec fn last_where_char(s: Seq<char>, p: spec_fn(char) -> bool) -> Option<int>
    decreases s.len(),
{
    if s.len() == 0 {
        Option::None
    } else if p(s.last()) {
        Option::Some(s.len() - 1)
    } else {
        last_where_char(s.drop_last(), p)
    }
}

/// What `last_where_char` returns: the greatest index satisfying `p`, or
/// nothing when no index does.
pub proof fn lemma_last_where_char(s: Seq<char>, p: spec_fn(char) -> bool)
    ensures
        match last_where_char(s, p) {
            Option::Some(i) => 0 <= i < s.len() && p(s[i]) && forall|j: int|
                i < j < s.len() ==> !p(s[j]),
            Option::None => forall|j: int| 0 <= j < s.len() ==> !p(s[j]),
        },
    decreases s.len(),
{
    if s.len() > 0 && !p(s.last()) {
        lemma_last_where_char(s.drop_last(), p);
        assert forall|j: int| 0 <= j < s.drop_last().len() implies s.drop_last()[j] == s[j] by {}
    }
}

/// The character `c` taken down to ASCII lower case.
pub open spec fn lower_char(c: char) -> char {
    if 'A' <= c && c <= 'Z' {
        ((c as u8) + 32) as char
    } else {
        c
    }
}

/// A string taken down to ASCII lower case, character by character.
pub open spec fn ascii_lower(s: Seq<char>) -> Seq<char> {
    s.map_values(|c: char| lower_char(c))
}

/// Lower-case a string's ASCII letters.
pub fn to_ascii_lower(s: &str) -> (r: String)
    ensures
        r@ == ascii_lower(s@),
{
    let n = s.unicode_len();
    let mut r = String::new();
    let mut i: usize = 0;
    while i < n
        invariant
            0 <= i <= n,
            n == s@.len(),
            r@ == ascii_lower(s@.take(i as int)),
        decreases n - i,
    {
        let c = s.get_char(i);
        let lc = if c >= 'A' && c <= 'Z' {
            ((c as u8) + 32) as char
        } else {
            c
        };
        push_char(&mut r, lc);
        i = i + 1;
        proof {
            assert(ascii_lower(s@.take(i as int)) =~= ascii_lower(s@.take(i - 1)).push(
                lower_char(s@[i - 1]),
            ));
        }
    }
    proof {
        assert(s@.take(n as int) =~= s@);
    }
    r
}

/// The characters of a string.
pub fn str_chars(s: &str) -> (r: Vec<char>)
    ensures
        r@ == s@,
{
    let n = s.unicode_len();
    let mut r: Vec<char> = Vec::new();
    let mut i: usize = 0;
    while i < n
        invariant
            0 <= i <= n,
            n == s@.len(),
            r@ == s@.take(i as int),
        decreases n - i,
    {
        r.push(s.get_char(i));
        i = i + 1;
        proof {
            assert(s@.take(i as int) =~= s@.take(i - 1).push(s@[i - 1]));
        }
    }
    proof {
        assert(s@.take(n as int) =~= s@);
    }
    r
}

/// The given lines, each closed by a newline.
pub open spec fn lines_render(ps: Seq<Seq<char>>) -> Seq<char>
    decreases ps.len(),
{
    if ps.len() == 0 {
        Seq::empty()
    } else {
        ps.first() + "\n"@ + lines_render(ps.drop_first())
    }
}

/// Render the strings one per line.
pub fn join_lines(ps: &Vec<String>) -> (r: String)
    ensures
        r@ == lines_render(crate::records::strs_view(ps@)),
{
    let ghost vs = crate::records::strs_view(ps@);
    let mut out = String::new();
    let mut i: usize = 0;
    proof {
        assert(vs.skip(0) =~= vs);
        assert(Seq::<char>::empty() + lines_render(vs) =~= lines_render(vs));
    }
    while i < ps.len()
        invariant
            0 <= i <= ps@.len(),
            vs == crate::records::strs_view(ps@),
            out@ + lines_render(vs.skip(i as int)) == lines_render(vs),
        decreases ps@.len() - i,
    {
        let ghost rest = vs.skip(i as int);
        proof {
            assert(rest.first() == vs[i as int]);
            assert(rest.drop_first() =~= vs.skip(i + 1));
            assert(vs[i as int] == ps@[i as int]@);
        }
        let ghost pre = out@;
        out.append(ps[i].as_str());
        out.append("\n");
        proof {
            assert(out@ =~= pre + (rest.first() + "\n"@));
            assert(out@ + lines_render(vs.skip(i + 1)) =~= pre + lines_render(rest));
        }
        i = i + 1;
    }
    proof {
        assert(vs.skip(vs.len() as int) =~= Seq::<Seq<char>>::empty());
        assert(out@ + Seq::<char>::empty() =~= out@);
    }
    out
}

/// `n` spaces.
pub open spec fn spaces(n: int) -> Seq<char>
    decreases n,
{
    if n <= 0 {
        Seq::empty()
    } else {
        spaces(n - 1).push(' ')
    }
}

/// Append `n` spaces to a string.
pub fn push_spaces(s: &mut String, n: usize)
    ensures
        final(s)@ == old(s)@ + spaces(n as int),
{
    let mut i: usize = 0;
    proof {
        assert(old(s)@ + spaces(0) =~= old(s)@);
    }
    while i < n
        invariant
            0 <= i <= n,
            s@ == old(s)@ + spaces(i as int),
        decreases n - i,
    {
        push_char(s, ' ');
        i = i + 1;
    }
}

/// How many digits the decimal rendering of `n` has.
pub fn num_digits(n: usize) -> (r: usize)
    ensures
        r == dec_digits(n as int).len(),
        r >= 1,
{
    let digits = usize_to_string(n);
    digits.as_str().unicode_len()
}

/// The decimal rendering of `n`, right-aligned in a field of `width`
/// spaces.
pub open spec fn right_aligned(n: int, width: int) -> Seq<char> {
    spaces(width - dec_digits(n).len()) + dec_digits(n)
}

/// Append the decimal rendering of `n`, right-aligned to `width`.
pub fn push_right_aligned(s: &mut String, n: usize, width: usize)
    ensures
        final(s)@ == old(s)@ + right_aligned(n as int, width as int),
{
    let digits = usize_to_string(n);
    let nd = digits.as_str().unicode_len();
    if nd < width {
        push_spaces(s, width - nd);
    } else {
        proof {
            assert(spaces(width - dec_digits(n as int).len()) =~= Seq::<char>::empty());
            assert(s@ + Seq::<char>::empty() =~= s@);
        }
    }
    let ghost mid = s@;
    s.append(digits.as_str());
    proof {
        assert(old(s)@ + right_aligned(n as int, width as int) =~= s@);
    }
}

/// The longest prefix of `s` made of whitespace, removed together with the
/// longest such suffix; the empty sequence when `s` is all whitespace.
pub open spec fn trim_spec(s: Seq<char>) -> Seq<char>
    decreases s.len(),
{
    if s.len() == 0 {
        s
    } else if is_ws_char(s.first()) {
        trim_spec(s.drop_first())
    } else if is_ws_char(s.last()) {
        trim_spec(s.drop_last())
    } else {
        s
    }
}

/// Collect characters into a `String`, dropping leading and trailing
/// ASCII whitespace.
#[verifier::rlimit(30)]
pub fn trim_chars(cs: &Vec<char>) -> (r: String)
    ensures
        r@ == trim_spec(cs@),
{
    let mut lo: usize = 0;
    let mut hi: usize = cs.len();
    proof {
        assert(cs@.subrange(0, cs@.len() as int) =~= cs@);
    }
    while lo < hi && char_is_ws(cs[lo])
        invariant
            0 <= lo <= hi <= cs.len(),
            trim_spec(cs@) == trim_spec(cs@.subrange(lo as int, hi as int)),
        decreases hi - lo,
    {
        proof {
            assert(cs@.subrange(lo as int, hi as int).drop_first() =~= cs@.subrange(
                lo + 1,
                hi as int,
            ));
        }
        lo = lo + 1;
    }
    while lo < hi && char_is_ws(cs[hi - 1])
        invariant
            0 <= lo <= hi <= cs.len(),
            trim_spec(cs@) == trim_spec(cs@.subrange(lo as int, hi as int)),
            lo < hi ==> !is_ws_char(cs@[lo as int]),
        decreases hi - lo,
    {
        proof {
            assert(cs@.subrange(lo as int, hi as int).drop_last() =~= cs@.subrange(
                lo as int,
                hi - 1,
            ));
        }
        hi = hi - 1;
    }
    let mut r = String::new();
    let mut i: usize = lo;
    while i < hi
        invariant
            lo <= i <= hi <= cs.len(),
            r@ == cs@.subrange(lo as int, i as int),
        decreases hi - i,
    {
        push_char(&mut r, cs[i]);
        i = i + 1;
        proof {
            assert(cs@.subrange(lo as int, i as int) =~= cs@.subrange(lo as int, i - 1).push(
                cs@[i - 1],
            ));
        }
    }
    proof {
        let t = cs@.subrange(lo as int, hi as int);
        if lo < hi {
            assert(!is_ws_char(t.first()));
            assert(!is_ws_char(t.last()));
        }
        assert(trim_spec(t) == t);
    }
    r
}

} // verus!
