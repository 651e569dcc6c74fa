//! Character classes and trimming, as `str::trim` and `str::trim_end_matches`
//! apply them to the text fields of an MSDM table.
use vstd::prelude::*;
use vstd::utf8::{encode_scalar, encode_utf8};

verus! {

/// The characters with the Unicode `White_Space` property, which `char::is_whitespace`
/// and `str::trim` use.
pub open spec fn is_white_space(c: char) -> bool {
    ||| ('\u{9}' <= c && c <= '\u{d}')
    ||| c == ' '
    ||| c == '\u{85}'
    ||| c == '\u{a0}'
    ||| c == '\u{1680}'
    ||| ('\u{2000}' <= c && c <= '\u{200a}')
    ||| c == '\u{2028}'
    ||| c == '\u{2029}'
    ||| c == '\u{202f}'
    ||| c == '\u{205f}'
    ||| c == '\u{3000}'
}

/// `s` without its leading white space.
pub open spec fn trim_start_ws(s: Seq<char>) -> Seq<char>
    decreases s.len(),
{
    if s.len() > 0 && is_white_space(s[0]) {
        trim_start_ws(s.drop_first())
    } else {
        s
    }
}

/// `s` without its trailing white space.
pub open spec fn trim_end_ws(s: Seq<char>) -> Seq<char>
    decreases s.len(),
{
    if s.len() > 0 && is_white_space(s.last()) {
        trim_end_ws(s.drop_last())
    } else {
        s
    }
}

/// What `str::trim` leaves of `s`.
pub open spec fn trim_ws(s: Seq<char>) -> Seq<char> {
    trim_end_ws(trim_start_ws(s))
}

/// What `str::trim_end_matches('\0')` leaves of `s`.
pub open spec fn trim_end_nul(s: Seq<char>) -> Seq<char>
    decreases s.len(),
{
    if s.len() > 0 && s.last() == '\0' {
        trim_end_nul(s.drop_last())
    } else {
        s
    }
}

/// The text of a raw product key: white space trimmed at both ends, then NUL
/// padding trimmed at the end.
pub open spec fn key_text(s: Seq<char>) -> Seq<char> {
    trim_end_nul(trim_ws(s))
}

/// Whether `c` is white space or NUL, the padding of a fixed-width text field.
pub open spec fn is_padding(c: char) -> bool {
    is_white_space(c) || c == '\0'
}

/// `s` without its trailing white space and NUL padding, in any mix.
pub open spec fn trim_end_padding(s: Seq<char>) -> Seq<char>
    decreases s.len(),
{
    if s.len() > 0 && is_padding(s.last()) {
        trim_end_padding(s.drop_last())
    } else {
        s
    }
}

/// The text of a fixed-width header field: leading white space trimmed, and
/// trailing white space and NUL padding trimmed together.
pub open spec fn padded_text(s: Seq<char>) -> Seq<char> {
    trim_end_padding(trim_start_ws(s))
}

/// Whether `c` is one of `0-9`, `A-Z`, `a-z`.
pub open spec fn is_ascii_alnum(c: char) -> bool {
    ||| ('0' <= c && c <= '9')
    ||| ('A' <= c && c <= 'Z')
    ||| ('a' <= c && c <= 'z')
}

/// The ASCII upper-case form of `c`: `a-z` become `A-Z`, every other character
/// stays as it is.
pub open spec fn ascii_upper(c: char) -> char {
    if 'a' <= c && c <= 'z' {
        ((c as u32) - 32) as char
    } else {
        c
    }
}

/// The ASCII lower-case form of `c`: `A-Z` become `a-z`, every other character
/// stays as it is.
pub open spec fn ascii_lower(c: char) -> char {
    if 'A' <= c && c <= 'Z' {
        ((c as u32) + 32) as char
    } else {
        c
    }
}

/// `ascii_lower` applied to each character of `s`.
pub open spec fn ascii_lower_seq(s: Seq<char>) -> Seq<char> {
    s.map_values(|c: char| ascii_lower(c))
}

/// `ascii_upper` applied to each character of `s`.
pub open spec fn ascii_upper_seq(s: Seq<char>) -> Seq<char> {
    s.map_values(|c: char| ascii_upper(c))
}

/// The length in bytes of the UTF-8 encoding of `s`, which is what `str::len` counts.
pub open spec fn utf8_len(s: Seq<char>) -> nat {
    encode_utf8(s).len()
}

/// Encoding a concatenation encodes each part in turn.
pub proof fn lemma_encode_utf8_concat(a: Seq<char>, b: Seq<char>)
    ensures
        encode_utf8(a + b) == encode_utf8(a) + encode_utf8(b),
    decreases a.len(),
{
    if a.len() == 0 {
        assert(a + b =~= b);
        assert(encode_utf8(a) + encode_utf8(b) =~= encode_utf8(b));
    } else {
        lemma_encode_utf8_concat(a.drop_first(), b);
        assert((a + b).drop_first() =~= a.drop_first() + b);
        assert((a + b)[0] == a[0]);
        let h = encode_scalar(a[0] as u32);
        assert(h + (encode_utf8(a.drop_first()) + encode_utf8(b)) =~= (h + encode_utf8(
            a.drop_first(),
        )) + encode_utf8(b));
    }
}

/// The UTF-8 length of `s[i..j]` grows by the width of `s[j]` when `j` grows by one.
pub proof fn lemma_utf8_len_extend(s: Seq<char>, i: int, j: int)
    requires
        0 <= i <= j < s.len(),
    ensures
        utf8_len(s.subrange(i, j + 1)) == utf8_len(s.subrange(i, j)) + encode_scalar(
            s[j] as u32,
        ).len(),
{
    let a = s.subrange(i, j);
    let b = seq![s[j]];
    assert(s.subrange(i, j + 1) =~= a + b);
    lemma_encode_utf8_concat(a, b);
    assert(b.drop_first() =~= Seq::<char>::empty());
    assert(encode_utf8(b) =~= encode_scalar(s[j] as u32) + encode_utf8(Seq::<char>::empty()));
}

/// The number of bytes in the UTF-8 encoding of `c`, as `char::len_utf8` counts them.
pub fn utf8_width(c: char) -> (w: usize)
    ensures
        w == encode_scalar(c as u32).len(),
        1 <= w <= 4,
{
    let u = c as u32;
    proof {
        vstd::utf8::char_is_scalar(c);
    }
    if u <= 0x7f {
        1
    } else if u <= 0x7ff {
        2
    } else if u <= 0xffff {
        3
    } else {
        4
    }
}

/// Whether the UTF-8 encoding of `v[start..end]` is `target` bytes long.
pub fn utf8_len_is(v: &Vec<char>, start: usize, end: usize, target: usize) -> (r: bool)
    requires
        start <= end <= v@.len(),
        target <= usize::MAX - 4,
    ensures
        r == (utf8_len(v@.subrange(start as int, end as int)) == target),
{
    let mut total: usize = 0;
    let mut i = start;
    assert(v@.subrange(start as int, start as int) =~= Seq::<char>::empty());
    while i < end
        invariant
            start <= i <= end <= v@.len(),
            target <= usize::MAX - 4,
            total <= target,
            total == utf8_len(v@.subrange(start as int, i as int)),
        decreases end - i,
    {
        let w = utf8_width(v[i]);
        proof {
            lemma_utf8_len_extend(v@, start as int, i as int);
        }
        if total + w > target {
            proof {
                lemma_utf8_len_monotone(v@, start as int, i + 1, end as int);
            }
            return false;
        }
        total = total + w;
        i = i + 1;
    }
    total == target
}

/// A longer range never has a shorter UTF-8 encoding.
pub proof fn lemma_utf8_len_monotone(s: Seq<char>, i: int, j: int, k: int)
    requires
        0 <= i <= j <= k <= s.len(),
    ensures
        utf8_len(s.subrange(i, j)) <= utf8_len(s.subrange(i, k)),
{
    assert(s.subrange(i, k) =~= s.subrange(i, j) + s.subrange(j, k));
    lemma_encode_utf8_concat(s.subrange(i, j), s.subrange(j, k));
}

/// Executable form of `is_white_space`.
pub fn is_white_space_char(c: char) -> (r: bool)
    ensures
        r == is_white_space(c),
{
    ('\u{9}' <= c && c <= '\u{d}') || c == ' ' || c == '\u{85}' || c == '\u{a0}'
        || c == '\u{1680}' || ('\u{2000}' <= c && c <= '\u{200a}') || c == '\u{2028}'
        || c == '\u{2029}' || c == '\u{202f}' || c == '\u{205f}' || c == '\u{3000}'
}

/// Executable form of `is_ascii_alnum`.
pub fn is_ascii_alnum_char(c: char) -> (r: bool)
    ensures
        r == is_ascii_alnum(c),
{
    ('0' <= c && c <= '9') || ('A' <= c && c <= 'Z') || ('a' <= c && c <= 'z')
}

/// The characters of `s`, in order.
pub fn chars_of(s: &str) -> (v: Vec<char>)
    ensures
        v@ == s@,
{
    let n = s.unicode_len();
    let mut v: Vec<char> = Vec::new();
    for i in 0..n
        invariant
            n == s@.len(),
            v@ == s@.take(i as int),
    {
        v.push(s.get_char(i));
        assert(s@.take(i + 1) =~= s@.take(i as int).push(s@[i as int]));
    }
    assert(s@.take(n as int) =~= s@);
    v
}

proof fn lemma_subrange_drop_first(s: Seq<char>, i: int, j: int)
    requires
        0 <= i < j <= s.len(),
    ensures
        s.subrange(i, j).drop_first() == s.subrange(i + 1, j),
        s.subrange(i, j).drop_last() == s.subrange(i, j - 1),
        s.subrange(i, j)[0] == s[i],
        s.subrange(i, j).last() == s[j - 1],
{
    assert(s.subrange(i, j).drop_first() =~= s.subrange(i + 1, j));
    assert(s.subrange(i, j).drop_last() =~= s.subrange(i, j - 1));
}

/// The index of the first character in `v[start..end]` that is not white space,
/// or `end`.
pub fn skip_leading_ws(v: &Vec<char>, start: usize, end: usize) -> (r: usize)
    requires
        start <= end <= v@.len(),
    ensures
        start <= r <= end,
        trim_start_ws(v@.subrange(start as int, end as int)) == v@.subrange(r as int, end as int),
{
    let mut i = start;
    while i < end && is_white_space_char(v[i])
        invariant
            start <= i <= end <= v@.len(),
            trim_start_ws(v@.subrange(start as int, end as int)) == trim_start_ws(
                v@.subrange(i as int, end as int),
            ),
        decreases end - i,
    {
        proof {
            lemma_subrange_drop_first(v@, i as int, end as int);
        }
        i = i + 1;
    }
    proof {
        if i < end {
            lemma_subrange_drop_first(v@, i as int, end as int);
        }
    }
    i
}

/// The index just past the last character in `v[start..end]` that is not white
/// space, or `start`.
pub fn skip_trailing_ws(v: &Vec<char>, start: usize, end: usize) -> (r: usize)
    requires
        start <= end <= v@.len(),
    ensures
        start <= r <= end,
        trim_end_ws(v@.subrange(start as int, end as int)) == v@.subrange(start as int, r as int),
{
    let mut j = end;
    while j > start && is_white_space_char(v[j - 1])
        invariant
            start <= j <= end <= v@.len(),
            trim_end_ws(v@.subrange(start as int, end as int)) == trim_end_ws(
                v@.subrange(start as int, j as int),
            ),
        decreases j - start,
    {
        proof {
            lemma_subrange_drop_first(v@, start as int, j as int);
        }
        j = j - 1;
    }
    proof {
        if j > start {
            lemma_subrange_drop_first(v@, start as int, j as int);
        }
    }
    j
}

/// The index just past the last character in `v[start..end]` that is not NUL,
/// or `start`.
pub fn skip_trailing_nul(v: &Vec<char>, start: usize, end: usize) -> (r: usize)
    requires
        start <= end <= v@.len(),
    ensures
        start <= r <= end,
        trim_end_nul(v@.subrange(start as int, end as int)) == v@.subrange(start as int, r as int),
{
    let mut j = end;
    while j > start && v[j - 1] == '\0'
        invariant
            start <= j <= end <= v@.len(),
            trim_end_nul(v@.subrange(start as int, end as int)) == trim_end_nul(
                v@.subrange(start as int, j as int),
            ),
        decreases j - start,
    {
        proof {
            lemma_subrange_drop_first(v@, start as int, j as int);
        }
        j = j - 1;
    }
    proof {
        if j > start {
            lemma_subrange_drop_first(v@, start as int, j as int);
        }
    }
    j
}

/// The index just past the last character in `v[start..end]` that is neither white
/// space nor NUL, or `start`.
pub fn skip_trailing_padding(v: &Vec<char>, start: usize, end: usize) -> (r: usize)
    requires
        start <= end <= v@.len(),
    ensures
        start <= r <= end,
        trim_end_padding(v@.subrange(start as int, end as int)) == v@.subrange(
            start as int,
            r as int,
        ),
{
    let mut j = end;
    while j > start && (is_white_space_char(v[j - 1]) || v[j - 1] == '\0')
        invariant
            start <= j <= end <= v@.len(),
            trim_end_padding(v@.subrange(start as int, end as int)) == trim_end_padding(
                v@.subrange(start as int, j as int),
            ),
        decreases j - start,
    {
        proof {
            lemma_subrange_drop_first(v@, start as int, j as int);
        }
        j = j - 1;
    }
    proof {
        if j > start {
            lemma_subrange_drop_first(v@, start as int, j as int);
        }
    }
    j
}

/// The bounds, in characters, of `padded_text(v@)` inside `v`.
pub fn padded_text_bounds(v: &Vec<char>) -> (r: (usize, usize))
    ensures
        r.0 <= r.1 <= v@.len(),
        v@.subrange(r.0 as int, r.1 as int) == padded_text(v@),
{
    let n = v.len();
    let a = skip_leading_ws(v, 0, n);
    let c = skip_trailing_padding(v, a, n);
    assert(v@.subrange(0, n as int) =~= v@);
    (a, c)
}

/// The bounds, in characters, of `key_text(v@)` inside `v`.
pub fn key_text_bounds(v: &Vec<char>) -> (r: (usize, usize))
    ensures
        r.0 <= r.1 <= v@.len(),
        v@.subrange(r.0 as int, r.1 as int) == key_text(v@),
{
    let n = v.len();
    let a = skip_leading_ws(v, 0, n);
    let b = skip_trailing_ws(v, a, n);
    let c = skip_trailing_nul(v, a, b);
    assert(v@.subrange(0, n as int) =~= v@);
    (a, c)
}


/// Whether `s` ends in a white-space character.
pub open spec fn ends_with_white_space(s: Seq<char>) -> bool {
    s.len() > 0 && is_white_space(s.last())
}

/// `m` NUL characters.
pub open spec fn nuls(m: nat) -> Seq<char> {
    Seq::new(m, |i: int| '\0')
}

/// Leading white space is trimmed the same way when more text follows that does not
/// start with white space.
pub proof fn lemma_trim_start_ws_append(a: Seq<char>, b: Seq<char>)
    requires
        b.len() == 0 || !is_white_space(b[0]),
    ensures
        trim_start_ws(a + b) == trim_start_ws(a) + b,
    decreases a.len(),
{
    if a.len() == 0 {
        assert(a + b =~= b);
        assert(Seq::<char>::empty() + b =~= b);
    } else {
        assert((a + b)[0] == a[0]);
        if is_white_space(a[0]) {
            assert((a + b).drop_first() =~= a.drop_first() + b);
            lemma_trim_start_ws_append(a.drop_first(), b);
        }
    }
}

/// What is left after trimming leading white space ends as `s` ends.
pub proof fn lemma_trim_start_ws_last(s: Seq<char>)
    ensures
        trim_start_ws(s).len() <= s.len(),
        trim_start_ws(s).len() > 0 ==> trim_start_ws(s).last() == s.last(),
    decreases s.len(),
{
    if s.len() > 0 && is_white_space(s[0]) {
        lemma_trim_start_ws_last(s.drop_first());
    }
}

/// Trailing NULs are trimmed whatever their number.
pub proof fn lemma_trim_end_nul_append(x: Seq<char>, m: nat)
    ensures
        trim_end_nul(x + nuls(m)) == trim_end_nul(x),
    decreases m,
{
    if m == 0 {
        assert(x + nuls(0) =~= x);
    } else {
        let y = x + nuls(m);
        assert(y.last() == '\0');
        assert(y.drop_last() =~= x + nuls((m - 1) as nat));
        lemma_trim_end_nul_append(x, (m - 1) as nat);
    }
}

/// For text that does not end in white space, trailing NUL padding does not change
/// the field text.
pub proof fn lemma_key_text_nul_padding(s: Seq<char>, m: nat)
    requires
        !ends_with_white_space(s),
    ensures
        key_text(s + nuls(m)) == key_text(s),
{
    let t = trim_start_ws(s);
    lemma_trim_start_ws_last(s);
    assert(trim_end_ws(t) == t);
    if m == 0 {
        assert(s + nuls(0) =~= s);
    } else {
        let n = nuls(m);
        assert(n[0] == '\0');
        lemma_trim_start_ws_append(s, n);
        assert((t + n).last() == '\0');
        assert(trim_end_ws(t + n) == t + n);
        lemma_trim_end_nul_append(t, m);
    }
}

/// Whether `f` keeps every character's class: white space, NUL, `0-9 A-Z a-z`,
/// and the hyphen go to the same class, and upper case is the same afterwards.
pub open spec fn keeps_classes(f: spec_fn(char) -> char) -> bool {
    forall|c: char|
        #![trigger f(c)]
        {
            &&& is_white_space(f(c)) == is_white_space(c)
            &&& (f(c) == '\0') == (c == '\0')
            &&& is_ascii_alnum(f(c)) == is_ascii_alnum(c)
            &&& (f(c) == '-') == (c == '-')
            &&& ascii_upper(f(c)) == ascii_upper(c)
        }
}

proof fn lemma_map_parts(s: Seq<char>, f: spec_fn(char) -> char)
    requires
        s.len() > 0,
    ensures
        s.map_values(f).drop_first() == s.drop_first().map_values(f),
        s.map_values(f).drop_last() == s.drop_last().map_values(f),
        s.map_values(f)[0] == f(s[0]),
        s.map_values(f).last() == f(s.last()),
{
    assert(s.map_values(f).drop_first() =~= s.drop_first().map_values(f));
    assert(s.map_values(f).drop_last() =~= s.drop_last().map_values(f));
}

proof fn lemma_trim_start_ws_map(s: Seq<char>, f: spec_fn(char) -> char)
    requires
        keeps_classes(f),
    ensures
        trim_start_ws(s.map_values(f)) == trim_start_ws(s).map_values(f),
    decreases s.len(),
{
    if s.len() > 0 {
        lemma_map_parts(s, f);
        assert(is_white_space(f(s[0])) == is_white_space(s[0]));
        lemma_trim_start_ws_map(s.drop_first(), f);
    }
}

proof fn lemma_trim_end_ws_map(s: Seq<char>, f: spec_fn(char) -> char)
    requires
        keeps_classes(f),
    ensures
        trim_end_ws(s.map_values(f)) == trim_end_ws(s).map_values(f),
    decreases s.len(),
{
    if s.len() > 0 {
        lemma_map_parts(s, f);
        assert(is_white_space(f(s.last())) == is_white_space(s.last()));
        lemma_trim_end_ws_map(s.drop_last(), f);
    }
}

proof fn lemma_trim_end_nul_map(s: Seq<char>, f: spec_fn(char) -> char)
    requires
        keeps_classes(f),
    ensures
        trim_end_nul(s.map_values(f)) == trim_end_nul(s).map_values(f),
    decreases s.len(),
{
    if s.len() > 0 {
        lemma_map_parts(s, f);
        assert((f(s.last()) == '\0') == (s.last() == '\0'));
        lemma_trim_end_nul_map(s.drop_last(), f);
    }
}

/// Trimming a raw key and mapping its characters by a class-keeping `f` can be done
/// in either order.
pub proof fn lemma_key_text_map(s: Seq<char>, f: spec_fn(char) -> char)
    requires
        keeps_classes(f),
    ensures
        key_text(s.map_values(f)) == key_text(s).map_values(f),
{
    lemma_trim_start_ws_map(s, f);
    lemma_trim_end_ws_map(trim_start_ws(s), f);
    lemma_trim_end_nul_map(trim_ws(s), f);
}

/// ASCII upper case keeps the classes of characters.
pub proof fn lemma_upper_keeps_classes()
    ensures
        keeps_classes(|c: char| ascii_upper(c)),
{
}

/// ASCII lower case keeps the classes of characters.
pub proof fn lemma_lower_keeps_classes()
    ensures
        keeps_classes(|c: char| ascii_lower(c)),
{
}

/// A class-keeping map keeps the class of each character of `s`, and upper-casing
/// afterwards gives what upper-casing `s` gives.
pub proof fn lemma_map_chars(s: Seq<char>, f: spec_fn(char) -> char)
    requires
        keeps_classes(f),
    ensures
        ascii_upper_seq(s.map_values(f)) == ascii_upper_seq(s),
        forall|i: int|
            0 <= i < s.len() ==> {
                &&& is_ascii_alnum(#[trigger] s.map_values(f)[i]) == is_ascii_alnum(s[i])
                &&& (s.map_values(f)[i] == '-') == (s[i] == '-')
            },
{
    assert forall|i: int| 0 <= i < s.len() implies {
        &&& is_ascii_alnum(#[trigger] s.map_values(f)[i]) == is_ascii_alnum(s[i])
        &&& (s.map_values(f)[i] == '-') == (s[i] == '-')
    } by {
        assert(s.map_values(f)[i] == f(s[i]));
    }
    assert forall|i: int| 0 <= i < s.len() implies #[trigger] ascii_upper_seq(s.map_values(f))[i]
        == ascii_upper_seq(s)[i] by {
        assert(s.map_values(f)[i] == f(s[i]));
        assert(ascii_upper(f(s[i])) == ascii_upper(s[i]));
    }
    assert(ascii_upper_seq(s.map_values(f)) =~= ascii_upper_seq(s));
}

/// ASCII upper case turns each letter `a-z` into the letter `A-Z` 32 code points
/// below it, and keeps every other character.
pub proof fn law_ascii_upper(c: char)
    ensures
        'a' <= c && c <= 'z' ==> 'A' <= ascii_upper(c) && ascii_upper(c) <= 'Z'
            && ascii_upper(c) as u32 + 32 == c as u32,
        !('a' <= c && c <= 'z') ==> ascii_upper(c) == c,
{
}

/// ASCII lower case turns each letter `A-Z` into the letter `a-z` 32 code points
/// above it, and keeps every other character.
pub proof fn law_ascii_lower(c: char)
    ensures
        'A' <= c && c <= 'Z' ==> 'a' <= ascii_lower(c) && ascii_lower(c) <= 'z'
            && ascii_lower(c) as u32 == c as u32 + 32,
        !('A' <= c && c <= 'Z') ==> ascii_lower(c) == c,
{
}

/// Text that neither starts with white space nor ends with padding is its own
/// padded text.
pub proof fn lemma_padded_text_unpadded(s: Seq<char>)
    requires
        s.len() > 0,
        !is_white_space(s[0]),
        !is_padding(s.last()),
    ensures
        padded_text(s) == s,
{
}

/// Text that neither starts nor ends with white space or NUL is its own key text.
pub proof fn lemma_key_text_unpadded(s: Seq<char>)
    requires
        s.len() > 0,
        !is_white_space(s[0]),
        !is_padding(s.last()),
    ensures
        key_text(s) == s,
{
}

} // verus!
