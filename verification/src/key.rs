//! Windows product keys: the `XXXXX-XXXXX-XXXXX-XXXXX-XXXXX` format.
use vstd::prelude::*;
use vstd::string::StrSliceExecFns;
use vstd::utf8::{
    encode_utf8, encode_utf8_decode_utf8, encode_utf8_valid_utf8, is_ascii_chars,
    is_ascii_chars_encode_utf8,
};

use crate::decode::str_from_utf8;
use crate::error::MsdmError;
use crate::text::{
    ascii_upper, ascii_upper_seq, chars_of, ends_with_white_space, key_text_bounds, key_text,
    is_ascii_alnum, is_ascii_alnum_char, is_white_space, lemma_key_text_nul_padding,
    keeps_classes, lemma_key_text_map, lemma_lower_keeps_classes, lemma_map_chars,
    lemma_upper_keeps_classes, ascii_lower, ascii_lower_seq, nuls, trim_end_nul, trim_end_ws, trim_start_ws,
    utf8_len, utf8_len_is, law_ascii_upper,
};

verus! {

/// Length in bytes of a product key.
pub const PRODUCT_KEY_LENGTH: usize = 29;

/// Number of hyphen-separated groups in a product key.
pub const PRODUCT_KEY_GROUP_COUNT: usize = 5;

/// Number of characters in each group of a product key.
pub const PRODUCT_KEY_GROUP_LENGTH: usize = 5;

/// The character between the groups of a product key.
pub const PRODUCT_KEY_SEPARATOR: char = '-';

/// The first rule of the key format that a candidate key breaks.
#[derive(Debug, Clone, Copy, PartialEq, Eq)]
pub enum KeyFormatFault {
    /// The key is not 29 bytes long.
    Length,
    /// The key does not have exactly five groups.
    GroupCount,
    /// A group is not five bytes long.
    GroupLength,
    /// A group holds a character other than `0-9`, `A-Z`, `a-z`.
    Charset,
}

/// The reason that an `InvalidKeyFormat` error gives for each fault.
pub open spec fn fault_reason(f: KeyFormatFault) -> Seq<char> {
    match f {
        KeyFormatFault::Length => "key must be 29 characters (XXXXX-XXXXX-XXXXX-XXXXX-XXXXX)"@,
        KeyFormatFault::GroupCount => "key must have exactly 5 groups separated by hyphens"@,
        KeyFormatFault::GroupLength => "each group must be exactly 5 characters"@,
        KeyFormatFault::Charset => "key must contain only alphanumeric characters and hyphens"@,
    }
}

/// The pieces of `s` between occurrences of `sep`, as `str::split` yields them,
/// when `cur` has already been read into the current piece.
pub open spec fn split_acc(s: Seq<char>, sep: char, cur: Seq<char>) -> Seq<Seq<char>>
    decreases s.len(),
{
    if s.len() == 0 {
        seq![cur]
    } else if s[0] == sep {
        seq![cur] + split_acc(s.drop_first(), sep, seq![])
    } else {
        split_acc(s.drop_first(), sep, cur.push(s[0]))
    }
}

/// The pieces of `s` between occurrences of `sep`, as `str::split` yields them.
pub open spec fn split_on(s: Seq<char>, sep: char) -> Seq<Seq<char>> {
    split_acc(s, sep, seq![])
}

/// Whether every character of `s` is one of `0-9`, `A-Z`, `a-z`.
pub open spec fn all_ascii_alnum(s: Seq<char>) -> bool {
    forall|i: int| 0 <= i < s.len() ==> #[trigger] is_ascii_alnum(s[i])
}

/// The fault found in `group` when `done` groups have already passed.
pub open spec fn group_step(group: Seq<char>, done: nat) -> Option<KeyFormatFault> {
    if done + 1 > PRODUCT_KEY_GROUP_COUNT {
        Some(KeyFormatFault::GroupCount)
    } else if utf8_len(group) != PRODUCT_KEY_GROUP_LENGTH {
        Some(KeyFormatFault::GroupLength)
    } else if !all_ascii_alnum(group) {
        Some(KeyFormatFault::Charset)
    } else {
        None
    }
}

/// The first fault in `groups`, checked in order, when `done` groups have already
/// passed; at the end, the number of groups must be five.
pub open spec fn group_fault(groups: Seq<Seq<char>>, done: nat) -> Option<KeyFormatFault>
    decreases groups.len(),
{
    if groups.len() == 0 {
        if done != PRODUCT_KEY_GROUP_COUNT {
            Some(KeyFormatFault::GroupCount)
        } else {
            None
        }
    } else {
        match group_step(groups[0], done) {
            Some(f) => Some(f),
            None => group_fault(groups.drop_first(), done + 1),
        }
    }
}

/// The first rule of the format `XXXXX-XXXXX-XXXXX-XXXXX-XXXXX` that `key` breaks,
/// in the order in which the rules are checked, or `None` when it breaks none.
pub open spec fn key_fault(key: Seq<char>) -> Option<KeyFormatFault> {
    if utf8_len(key) != PRODUCT_KEY_LENGTH {
        Some(KeyFormatFault::Length)
    } else {
        group_fault(split_on(key, PRODUCT_KEY_SEPARATOR), 0)
    }
}

/// The reason text of `f`.
pub fn fault_reason_str(f: KeyFormatFault) -> (r: &'static str)
    ensures
        r@ == fault_reason(f),
{
    match f {
        KeyFormatFault::Length => "key must be 29 characters (XXXXX-XXXXX-XXXXX-XXXXX-XXXXX)",
        KeyFormatFault::GroupCount => "key must have exactly 5 groups separated by hyphens",
        KeyFormatFault::GroupLength => "each group must be exactly 5 characters",
        KeyFormatFault::Charset => "key must contain only alphanumeric characters and hyphens",
    }
}

fn invalid_key(key: &str, f: KeyFormatFault) -> (e: MsdmError)
    ensures
        e matches MsdmError::InvalidKeyFormat { key: k, reason } && k@ == key@ && reason@
            == fault_reason(f),
{
    MsdmError::InvalidKeyFormat { key: key.to_owned(), reason: fault_reason_str(f) }
}

/// Whether all characters of `v[start..end]` are one of `0-9`, `A-Z`, `a-z`.
fn range_is_alnum(v: &Vec<char>, start: usize, end: usize) -> (r: bool)
    requires
        start <= end <= v@.len(),
    ensures
        r == all_ascii_alnum(v@.subrange(start as int, end as int)),
{
    let mut i = start;
    while i < end
        invariant
            start <= i <= end <= v@.len(),
            forall|j: int| start <= j < i ==> is_ascii_alnum(#[trigger] v@[j]),
        decreases end - i,
    {
        if !is_ascii_alnum_char(v[i]) {
            assert(v@.subrange(start as int, end as int)[i - start] == v@[i as int]);
            return false;
        }
        i = i + 1;
    }
    assert forall|j: int| 0 <= j < end - start implies #[trigger] is_ascii_alnum(
        v@.subrange(start as int, end as int)[j],
    ) by {
        assert(v@.subrange(start as int, end as int)[j] == v@[start + j]);
    }
    true
}

/// Checks the group `key[start..end]` (in characters) when `done` groups passed.
fn check_group(v: &Vec<char>, start: usize, end: usize, done: usize) -> (r: Option<KeyFormatFault>)
    requires
        start <= end <= v@.len(),
        done <= PRODUCT_KEY_GROUP_COUNT,
    ensures
        r == group_step(v@.subrange(start as int, end as int), done as nat),
{
    if done + 1 > PRODUCT_KEY_GROUP_COUNT {
        return Some(KeyFormatFault::GroupCount);
    }
    if !utf8_len_is(v, start, end, PRODUCT_KEY_GROUP_LENGTH) {
        return Some(KeyFormatFault::GroupLength);
    }
    if !range_is_alnum(v, start, end) {
        return Some(KeyFormatFault::Charset);
    }
    None
}

proof fn lemma_group_fault_cons(g: Seq<char>, rest: Seq<Seq<char>>, done: nat)
    ensures
        group_fault(seq![g] + rest, done) == match group_step(g, done) {
            Some(f) => Some(f),
            None => group_fault(rest, done + 1),
        },
{
    let gs = seq![g] + rest;
    assert(gs.drop_first() =~= rest);
    assert(gs[0] == g);
}

/// Validate that a product key matches the format `XXXXX-XXXXX-XXXXX-XXXXX-XXXXX`.
pub fn validate_key_format(key: &str) -> (r: Result<(), MsdmError>)
    ensures
        match key_fault(key@) {
            None => r is Ok,
            Some(f) => r matches Err(MsdmError::InvalidKeyFormat { key: k, reason }) && k@
                == key@ && reason@ == fault_reason(f),
        },
{
    let expected_length = PRODUCT_KEY_GROUP_COUNT * PRODUCT_KEY_GROUP_LENGTH + (
    PRODUCT_KEY_GROUP_COUNT - 1);
    let v = chars_of(key);
    let n = v.len();
    if !utf8_len_is(&v, 0, n, expected_length) {
        assert(v@.subrange(0, n as int) =~= v@);
        return Err(invalid_key(key, KeyFormatFault::Length));
    }
    assert(v@.subrange(0, n as int) =~= v@);
    assert(v@.skip(0) =~= v@);
    assert(v@.subrange(0, 0) =~= Seq::<char>::empty());
    let mut group_count: usize = 0;
    let mut start: usize = 0;
    let mut i: usize = 0;
    while i < n
        invariant
            v@ == key@,
            n == v@.len(),
            start <= i <= n,
            group_count <= PRODUCT_KEY_GROUP_COUNT,
            key_fault(key@) == group_fault(
                split_acc(v@.skip(i as int), PRODUCT_KEY_SEPARATOR, v@.subrange(start as int, i as int)),
                group_count as nat,
            ),
        decreases n - i,
    {
        let ghost rest = v@.skip(i as int);
        let ghost cur = v@.subrange(start as int, i as int);
        assert(rest[0] == v@[i as int]);
        assert(rest.drop_first() =~= v@.skip(i + 1));
        if v[i] == PRODUCT_KEY_SEPARATOR {
            proof {
                lemma_group_fault_cons(cur, split_acc(v@.skip(i + 1), PRODUCT_KEY_SEPARATOR, seq![]), group_count as nat);
            }
            match check_group(&v, start, i, group_count) {
                Some(f) => {
                    return Err(invalid_key(key, f));
                },
                None => {},
            }
            group_count = group_count + 1;
            start = i + 1;
            assert(v@.subrange(start as int, start as int) =~= Seq::<char>::empty());
        } else {
            assert(cur.push(v@[i as int]) =~= v@.subrange(start as int, i + 1));
        }
        i = i + 1;
    }
    proof {
        let cur = v@.subrange(start as int, n as int);
        assert(v@.skip(n as int).len() == 0);
        assert(seq![cur] =~= seq![cur] + Seq::<Seq<char>>::empty());
        lemma_group_fault_cons(cur, Seq::<Seq<char>>::empty(), group_count as nat);
    }
    match check_group(&v, start, n, group_count) {
        Some(f) => {
            return Err(invalid_key(key, f));
        },
        None => {},
    }
    group_count = group_count + 1;
    if group_count != PRODUCT_KEY_GROUP_COUNT {
        return Err(invalid_key(key, KeyFormatFault::GroupCount));
    }
    Ok(())
}


/// The pieces `gs` put back together with `sep` between them.
pub open spec fn join_on(gs: Seq<Seq<char>>, sep: char) -> Seq<char>
    decreases gs.len(),
{
    if gs.len() == 0 {
        seq![]
    } else if gs.len() == 1 {
        gs[0]
    } else {
        gs[0] + seq![sep] + join_on(gs.drop_first(), sep)
    }
}

/// Whether `k` has the shape `XXXXX-XXXXX-XXXXX-XXXXX-XXXXX` with each `X` one of
/// `0-9`, `A-Z`, `a-z`.
pub open spec fn key_shape(k: Seq<char>) -> bool {
    &&& k.len() == 29
    &&& forall|i: int|
        #![trigger k[i]]
        0 <= i < 29 ==> if i % 6 == 5 {
            k[i] == PRODUCT_KEY_SEPARATOR
        } else {
            is_ascii_alnum(k[i])
        }
}

/// `m` groups of five characters from `0-9`, `A-Z`, `a-z`, separated by hyphens.
pub open spec fn groups_shape(s: Seq<char>, m: int) -> bool {
    &&& s.len() == 6 * m - 1
    &&& forall|i: int|
        #![trigger s[i]]
        0 <= i < s.len() ==> if i % 6 == 5 {
            s[i] == PRODUCT_KEY_SEPARATOR
        } else {
            is_ascii_alnum(s[i])
        }
}

/// A product key as `ProductKey` holds it: the key shape, in upper case.
pub open spec fn is_canonical_key(k: Seq<char>) -> bool {
    &&& key_shape(k)
    &&& forall|i: int| 0 <= i < k.len() ==> !('a' <= #[trigger] k[i] && k[i] <= 'z')
}

proof fn lemma_split_acc_nonempty(s: Seq<char>, sep: char, cur: Seq<char>)
    ensures
        split_acc(s, sep, cur).len() >= 1,
    decreases s.len(),
{
    if s.len() > 0 {
        if s[0] == sep {
            lemma_split_acc_nonempty(s.drop_first(), sep, seq![]);
        } else {
            lemma_split_acc_nonempty(s.drop_first(), sep, cur.push(s[0]));
        }
    }
}

/// Joining the pieces of a split gives back what was split.
pub proof fn lemma_split_join(s: Seq<char>, sep: char, cur: Seq<char>)
    ensures
        join_on(split_acc(s, sep, cur), sep) == cur + s,
    decreases s.len(),
{
    if s.len() == 0 {
        assert(cur + s =~= cur);
    } else if s[0] == sep {
        let rest = split_acc(s.drop_first(), sep, seq![]);
        lemma_split_acc_nonempty(s.drop_first(), sep, seq![]);
        lemma_split_join(s.drop_first(), sep, seq![]);
        let gs = seq![cur] + rest;
        assert(gs.drop_first() =~= rest);
        assert(gs[0] == cur);
        assert(Seq::<char>::empty() + s.drop_first() =~= s.drop_first());
        assert(cur + seq![sep] + s.drop_first() =~= cur + s);
    } else {
        lemma_split_join(s.drop_first(), sep, cur.push(s[0]));
        assert(cur.push(s[0]) + s.drop_first() =~= cur + s);
    }
}

proof fn lemma_alnum_is_ascii(g: Seq<char>)
    requires
        all_ascii_alnum(g),
    ensures
        is_ascii_chars(g),
        utf8_len(g) == g.len(),
{
    assert forall|i: int| 0 <= i < g.len() implies '\0' <= #[trigger] g[i] <= '\u{7f}' by {
        assert(is_ascii_alnum(g[i]));
    }
    is_ascii_chars_encode_utf8(g);
}

proof fn lemma_group_fault_none(gs: Seq<Seq<char>>, done: nat)
    requires
        group_fault(gs, done) is None,
    ensures
        gs.len() + done == PRODUCT_KEY_GROUP_COUNT,
        forall|i: int|
            0 <= i < gs.len() ==> #[trigger] gs[i].len() == PRODUCT_KEY_GROUP_LENGTH
                && all_ascii_alnum(gs[i]),
    decreases gs.len(),
{
    if gs.len() > 0 {
        lemma_group_fault_none(gs.drop_first(), done + 1);
        lemma_alnum_is_ascii(gs[0]);
        assert forall|i: int| 0 <= i < gs.len() implies #[trigger] gs[i].len()
            == PRODUCT_KEY_GROUP_LENGTH && all_ascii_alnum(gs[i]) by {
            if i > 0 {
                assert(gs[i] == gs.drop_first()[i - 1]);
            }
        }
    }
}

proof fn lemma_join_groups_shape(gs: Seq<Seq<char>>)
    requires
        gs.len() >= 1,
        forall|i: int|
            0 <= i < gs.len() ==> #[trigger] gs[i].len() == PRODUCT_KEY_GROUP_LENGTH
                && all_ascii_alnum(gs[i]),
    ensures
        groups_shape(join_on(gs, PRODUCT_KEY_SEPARATOR), gs.len() as int),
    decreases gs.len(),
{
    let g0 = gs[0];
    assert(g0.len() == 5 && all_ascii_alnum(g0));
    if gs.len() == 1 {
        let s = join_on(gs, PRODUCT_KEY_SEPARATOR);
        assert forall|i: int| 0 <= i < s.len() implies if i % 6 == 5 {
            s[i] == PRODUCT_KEY_SEPARATOR
        } else {
            is_ascii_alnum(#[trigger] s[i])
        } by {
            assert(i % 6 == i);
        }
    } else {
        let rest = gs.drop_first();
        assert forall|i: int|
            0 <= i < rest.len() implies #[trigger] rest[i].len() == PRODUCT_KEY_GROUP_LENGTH
            && all_ascii_alnum(rest[i]) by {
            assert(rest[i] == gs[i + 1]);
        }
        lemma_join_groups_shape(rest);
        let j = join_on(rest, PRODUCT_KEY_SEPARATOR);
        let s = join_on(gs, PRODUCT_KEY_SEPARATOR);
        assert(s == g0 + seq![PRODUCT_KEY_SEPARATOR] + j);
        assert forall|i: int| 0 <= i < s.len() implies if i % 6 == 5 {
            s[i] == PRODUCT_KEY_SEPARATOR
        } else {
            is_ascii_alnum(#[trigger] s[i])
        } by {
            if i < 5 {
                assert(i % 6 == i);
                assert(s[i] == g0[i]);
            } else if i == 5 {
                assert(s[i] == PRODUCT_KEY_SEPARATOR);
            } else {
                assert(s[i] == j[i - 6]);
                assert((i - 6) % 6 == i % 6);
            }
        }
    }
}

/// A key that passes validation has the shape `XXXXX-XXXXX-XXXXX-XXXXX-XXXXX`.
proof fn lemma_accepted_has_shape(k: Seq<char>)
    requires
        key_fault(k) is None,
    ensures
        key_shape(k),
{
    let gs = split_on(k, PRODUCT_KEY_SEPARATOR);
    lemma_group_fault_none(gs, 0);
    lemma_join_groups_shape(gs);
    lemma_split_join(k, PRODUCT_KEY_SEPARATOR, seq![]);
    assert(Seq::<char>::empty() + k =~= k);
}

proof fn lemma_split_acc_run(s: Seq<char>, sep: char, cur: Seq<char>, m: int)
    requires
        0 <= m <= s.len(),
        forall|i: int| 0 <= i < m ==> #[trigger] s[i] != sep,
    ensures
        split_acc(s, sep, cur) == split_acc(s.skip(m), sep, cur + s.take(m)),
    decreases m,
{
    if m > 0 {
        assert(s[0] != sep);
        assert forall|i: int| 0 <= i < m - 1 implies #[trigger] s.drop_first()[i] != sep by {
            assert(s.drop_first()[i] == s[i + 1]);
        }
        lemma_split_acc_run(s.drop_first(), sep, cur.push(s[0]), m - 1);
        assert(s.drop_first().skip(m - 1) =~= s.skip(m));
        assert(cur.push(s[0]) + s.drop_first().take(m - 1) =~= cur + s.take(m));
    } else {
        assert(s.skip(0) =~= s);
        assert(cur + s.take(0) =~= cur);
    }
}

proof fn lemma_shape_groups_pass(k: Seq<char>, j: int)
    requires
        key_shape(k),
        0 <= j <= 4,
    ensures
        group_fault(split_acc(k.skip(6 * j), PRODUCT_KEY_SEPARATOR, seq![]), j as nat) is None,
    decreases 4 - j,
{
    let s = k.skip(6 * j);
    assert forall|i: int| 0 <= i < 5 implies #[trigger] s[i] != PRODUCT_KEY_SEPARATOR
        && is_ascii_alnum(s[i]) by {
        assert(s[i] == k[6 * j + i]);
        assert((6 * j + i) % 6 == i);
    }
    lemma_split_acc_run(s, PRODUCT_KEY_SEPARATOR, seq![], 5);
    let g = s.take(5);
    assert(Seq::<char>::empty() + s.take(5) =~= g);
    assert forall|i: int| 0 <= i < g.len() implies #[trigger] is_ascii_alnum(g[i]) by {
        assert(g[i] == s[i]);
    }
    lemma_alnum_is_ascii(g);
    assert(group_step(g, j as nat) is None);
    let t = s.skip(5);
    if j == 4 {
        assert(t.len() == 0);
        assert(seq![g] =~= seq![g] + Seq::<Seq<char>>::empty());
        lemma_group_fault_cons(g, Seq::<Seq<char>>::empty(), j as nat);
    } else {
        assert(t[0] == k[6 * j + 5]);
        assert((6 * j + 5) % 6 == 5);
        assert(t.drop_first() =~= k.skip(6 * (j + 1)));
        lemma_shape_groups_pass(k, j + 1);
        lemma_group_fault_cons(
            g,
            split_acc(t.drop_first(), PRODUCT_KEY_SEPARATOR, seq![]),
            j as nat,
        );
    }
}

/// A key of the shape `XXXXX-XXXXX-XXXXX-XXXXX-XXXXX` passes validation.
proof fn lemma_shape_accepted(k: Seq<char>)
    requires
        key_shape(k),
    ensures
        key_fault(k) is None,
{
    assert forall|i: int| 0 <= i < k.len() implies '\0' <= #[trigger] k[i] <= '\u{7f}' by {
        if i % 6 != 5 {
            assert(is_ascii_alnum(k[i]));
        }
    }
    is_ascii_chars_encode_utf8(k);
    lemma_shape_groups_pass(k, 0);
    assert(k.skip(0) =~= k);
}

/// Validation accepts exactly the keys of the shape `XXXXX-XXXXX-XXXXX-XXXXX-XXXXX`,
/// where each `X` is one of `0-9`, `A-Z`, `a-z`.
pub proof fn law_key_format_exact(k: Seq<char>)
    ensures
        key_fault(k) is None <==> key_shape(k),
{
    if key_fault(k) is None {
        lemma_accepted_has_shape(k);
    }
    if key_shape(k) {
        lemma_shape_accepted(k);
    }
}


/// A validated Windows product key in the format `XXXXX-XXXXX-XXXXX-XXXXX-XXXXX`.
#[derive(Debug, Clone, PartialEq, Eq)]
pub struct ProductKey(String);

impl View for ProductKey {
    type V = Seq<char>;

    closed spec fn view(&self) -> Seq<char> {
        self.0@
    }
}

/// What `ProductKey::new` makes of a raw key: the trimmed key in upper case, or the
/// trimmed key together with the first rule that it breaks.
pub open spec fn key_outcome(raw: Seq<char>) -> Result<Seq<char>, (Seq<char>, KeyFormatFault)> {
    let key = key_text(raw);
    match key_fault(key) {
        None => Ok(ascii_upper_seq(key)),
        Some(f) => Err((key, f)),
    }
}

/// `e` is the error that `ProductKey::new` owes for the raw key `raw`.
pub open spec fn key_rejected_with(raw: Seq<char>, e: MsdmError) -> bool {
    match key_outcome(raw) {
        Ok(_) => false,
        Err((k, f)) => (e matches MsdmError::InvalidKeyFormat { key, reason } && key@ == k
            && reason@ == fault_reason(f)),
    }
}

/// The ASCII upper-case form of a string of ASCII characters.
fn ascii_uppercase(s: &str) -> (r: String)
    requires
        is_ascii_chars(s@),
    ensures
        r@ == ascii_upper_seq(s@),
{
    let bytes = s.as_bytes();
    proof {
        is_ascii_chars_encode_utf8(s@);
    }
    let ghost up = ascii_upper_seq(s@);
    let mut out: Vec<u8> = Vec::new();
    for i in 0..bytes.len()
        invariant
            bytes@ == encode_utf8(s@),
            bytes@.len() == s@.len(),
            up == ascii_upper_seq(s@),
            is_ascii_chars(s@),
            forall|j: int| 0 <= j < s@.len() ==> #[trigger] bytes@[j] == s@[j] as u8,
            out@.len() == i,
            forall|j: int| 0 <= j < i ==> #[trigger] out@[j] == up[j] as u8,
    {
        let b = bytes[i];
        let ghost c = s@[i as int];
        assert('\0' <= c <= '\u{7f}');
        assert(b == c as u8);
        let u = if b >= 97 && b <= 122 {
            b - 32
        } else {
            b
        };
        assert(u == ascii_upper(c) as u8);
        out.push(u);
    }
    assert(is_ascii_chars(up)) by {
        assert forall|j: int| 0 <= j < up.len() implies '\0' <= #[trigger] up[j] <= '\u{7f}' by {
            assert(up[j] == ascii_upper(s@[j]));
        }
    }
    proof {
        is_ascii_chars_encode_utf8(up);
    }
    assert(out@ =~= encode_utf8(up));
    proof {
        encode_utf8_valid_utf8(up);
    }
    match str_from_utf8(out.as_slice()) {
        Some(t) => {
            proof {
                encode_utf8_decode_utf8(t@);
                encode_utf8_decode_utf8(up);
            }
            t.to_owned()
        },
        None => {
            assert(false);
            String::new()
        },
    }
}

impl ProductKey {
    /// Validate and wrap a product key string: white space is trimmed at both ends
    /// and NUL padding at the end, and the key is kept in upper case.
    pub fn new(raw: &str) -> (r: Result<Self, MsdmError>)
        ensures
            match r {
                Ok(pk) => key_outcome(raw@) == Ok::<Seq<char>, (Seq<char>, KeyFormatFault)>(pk@),
                Err(e) => key_rejected_with(raw@, e),
            },
            r matches Ok(pk) ==> is_canonical_key(pk@),
    {
        let v = chars_of(raw);
        let (a, c) = key_text_bounds(&v);
        let key = raw.substring_char(a, c);
        match validate_key_format(key) {
            Err(e) => Err(e),
            Ok(()) => {
                proof {
                    lemma_accepted_has_shape(key@);
                    lemma_shape_is_ascii(key@);
                    law_product_key_canonical(raw@);
                }
                Ok(ProductKey(ascii_uppercase(key)))
            },
        }
    }

    /// The key text.
    pub fn as_ref(&self) -> (r: &str)
        ensures
            r@ == self@,
    {
        self.0.as_str()
    }
}

proof fn lemma_shape_is_ascii(k: Seq<char>)
    requires
        key_shape(k),
    ensures
        is_ascii_chars(k),
{
    assert forall|i: int| 0 <= i < k.len() implies '\0' <= #[trigger] k[i] <= '\u{7f}' by {
        if i % 6 != 5 {
            assert(is_ascii_alnum(k[i]));
        }
    }
}

/// Every key that `ProductKey::new` accepts comes out as
/// `XXXXX-XXXXX-XXXXX-XXXXX-XXXXX` in upper case.
pub proof fn law_product_key_canonical(raw: Seq<char>)
    ensures
        key_outcome(raw) matches Ok(k) ==> is_canonical_key(k),
{
    let key = key_text(raw);
    if key_fault(key) is None {
        lemma_accepted_has_shape(key);
        let k = ascii_upper_seq(key);
        assert forall|i: int| #![trigger k[i]] 0 <= i < 29 implies if i % 6 == 5 {
            k[i] == PRODUCT_KEY_SEPARATOR
        } else {
            is_ascii_alnum(k[i])
        } by {
            assert(k[i] == ascii_upper(key[i]));
        }
        assert forall|i: int| 0 <= i < k.len() implies ascii_upper(#[trigger] k[i]) == k[i] by {
            assert(k[i] == ascii_upper(key[i]));
        }
    }
}

/// A canonical key goes through `ProductKey::new` unchanged.
pub proof fn law_canonical_key_accepted(k: Seq<char>)
    requires
        is_canonical_key(k),
    ensures
        key_outcome(k) == Ok::<Seq<char>, (Seq<char>, KeyFormatFault)>(k),
{
    assert(!is_white_space(k[0])) by {
        assert(is_ascii_alnum(k[0]));
    }
    assert(!is_white_space(k.last()) && k.last() != '\0') by {
        assert(k.last() == k[28]);
        assert(28int % 6 == 4);
        assert(is_ascii_alnum(k[28]));
    }
    assert(trim_start_ws(k) == k);
    assert(trim_end_ws(k) == k);
    assert(trim_end_nul(k) == k);
    lemma_shape_accepted(k);
    assert(ascii_upper_seq(k) =~= k);
}


/// For a raw key that does not end in white space, trailing NUL padding changes
/// nothing that `ProductKey::new` returns.
pub proof fn law_trailing_nuls_ignored(raw: Seq<char>, m: nat)
    requires
        !ends_with_white_space(raw),
    ensures
        key_outcome(raw + nuls(m)) == key_outcome(raw),
{
    lemma_key_text_nul_padding(raw, m);
}

/// Mapping the characters of a raw key by a class-keeping `f` changes nothing that
/// `ProductKey::new` accepts, nor the key it gives.
proof fn lemma_outcome_map(raw: Seq<char>, f: spec_fn(char) -> char)
    requires
        keeps_classes(f),
    ensures
        key_outcome(raw.map_values(f)) is Ok <==> key_outcome(raw) is Ok,
        key_outcome(raw) is Ok ==> key_outcome(raw.map_values(f)) == key_outcome(raw),
{
    let key = key_text(raw);
    lemma_key_text_map(raw, f);
    let m = key.map_values(f);
    lemma_map_chars(key, f);
    law_key_format_exact(key);
    law_key_format_exact(m);
    assert(key_shape(m) == key_shape(key)) by {
        if key_shape(key) {
            assert forall|i: int| #![trigger m[i]] 0 <= i < 29 implies if i % 6 == 5 {
                m[i] == PRODUCT_KEY_SEPARATOR
            } else {
                is_ascii_alnum(m[i])
            } by {
                assert(is_ascii_alnum(m[i]) == is_ascii_alnum(key[i]));
            }
        }
        if key_shape(m) {
            assert forall|i: int| #![trigger key[i]] 0 <= i < 29 implies if i % 6 == 5 {
                key[i] == PRODUCT_KEY_SEPARATOR
            } else {
                is_ascii_alnum(key[i])
            } by {
                assert(is_ascii_alnum(m[i]) == is_ascii_alnum(key[i]));
            }
        }
    }
}

/// Whether a key is accepted does not depend on the case of its letters, and an
/// accepted key comes out the same whether its raw text is upper-cased,
/// lower-cased or left as it is.
pub proof fn law_key_case_insensitive(raw: Seq<char>)
    ensures
        key_outcome(ascii_upper_seq(raw)) is Ok <==> key_outcome(raw) is Ok,
        key_outcome(ascii_lower_seq(raw)) is Ok <==> key_outcome(raw) is Ok,
        key_outcome(raw) is Ok ==> key_outcome(ascii_upper_seq(raw)) == key_outcome(raw),
        key_outcome(raw) is Ok ==> key_outcome(ascii_lower_seq(raw)) == key_outcome(raw),
{
    lemma_upper_keeps_classes();
    lemma_lower_keeps_classes();
    lemma_outcome_map(raw, |c: char| ascii_upper(c));
    lemma_outcome_map(raw, |c: char| ascii_lower(c));
}


/// The key that `ProductKey::new` accepts is the trimmed raw key with each letter
/// `a-z` turned into the letter `A-Z` 32 code points below it, and every other
/// character kept; what comes out holds only `0-9`, `A-Z` and hyphens.
pub proof fn law_accepted_key_is_upper_case(raw: Seq<char>)
    ensures
        key_outcome(raw) matches Ok(k) ==> {
            let t = key_text(raw);
            &&& k.len() == t.len()
            &&& forall|i: int|
                #![trigger k[i]]
                0 <= i < k.len() ==> {
                    &&& ('a' <= t[i] && t[i] <= 'z') ==> k[i] as u32 + 32 == t[i] as u32
                    &&& !('a' <= t[i] && t[i] <= 'z') ==> k[i] == t[i]
                    &&& (k[i] == '-' || ('0' <= k[i] && k[i] <= '9') || ('A' <= k[i] && k[i]
                        <= 'Z'))
                }
        },
{
    law_product_key_canonical(raw);
    let t = key_text(raw);
    if key_fault(t) is None {
        let k = ascii_upper_seq(t);
        assert forall|i: int| #![trigger k[i]] 0 <= i < k.len() implies {
            &&& ('a' <= t[i] && t[i] <= 'z') ==> k[i] as u32 + 32 == t[i] as u32
            &&& !('a' <= t[i] && t[i] <= 'z') ==> k[i] == t[i]
            &&& (k[i] == '-' || ('0' <= k[i] && k[i] <= '9') || ('A' <= k[i] && k[i] <= 'Z'))
        } by {
            assert(k[i] == ascii_upper(t[i]));
            law_ascii_upper(t[i]);
            lemma_accepted_has_shape(t);
            if i % 6 != 5 {
                assert(is_ascii_alnum(t[i]));
            }
        }
    }
}

} // verus!
