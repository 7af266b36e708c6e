//! Character-level text primitives with their mathematical meaning.
//!
//! Text is modelled as `Seq<char>`: the view of `str` and `String`. Each
//! executable function works on `&[char]` and is proved against a spec
//! function that says what the corresponding `str` method computes.
use vstd::prelude::*;

verus! {

// ---------------------------------------------------------------------------
// Conversions between `str`/`String` and character vectors
// ---------------------------------------------------------------------------

/// The characters of a string slice, in order.
pub fn chars_of(s: &str) -> (v: Vec<char>)
    ensures
        v@ == s@,
{
    let mut v: Vec<char> = Vec::new();
    for c in it: s.chars()
        invariant
            v@ == it.seq().take(it.index() as int),
            it.seq() == s@,
    {
        v.push(c);
    }
    v
}

/// Appends one character to a `String` (std's `String::push`).
#[verifier::external_body]
fn push_char(s: &mut String, c: char)
    ensures
        final(s)@ == old(s)@.push(c),
{
    s.push(c);
}

/// A `String` holding the given characters.
pub fn string_of(v: &[char]) -> (s: String)
    ensures
        s@ == v@,
{
    let mut s = String::new();
    let mut i: usize = 0;
    while i < v.len()
        invariant
            i <= v.len(),
            s@ == v@.take(i as int),
        decreases v.len() - i,
    {
        push_char(&mut s, v[i]);
        assert(v@.take(i + 1) == v@.take(i as int).push(v@[i as int]));
        i += 1;
    }
    assert(v@.take(v.len() as int) == v@);
    s
}

/// Appends the characters of `b` to `a`.
pub fn append_chars(a: &mut Vec<char>, b: &[char])
    ensures
        final(a)@ == old(a)@ + b@,
{
    let mut i: usize = 0;
    while i < b.len()
        invariant
            i <= b.len(),
            a@ == old(a)@ + b@.take(i as int),
        decreases b.len() - i,
    {
        a.push(b[i]);
        assert(b@.take(i + 1) =~= b@.take(i as int).push(b@[i as int]));
        i += 1;
    }
    assert(b@.take(b@.len() as int) =~= b@);
}

/// A copy of `s[a..b]`.
pub fn copy_range(s: &[char], a: usize, b: usize) -> (v: Vec<char>)
    requires
        a <= b <= s.len(),
    ensures
        v@ == s@.subrange(a as int, b as int),
{
    let mut v: Vec<char> = Vec::new();
    let mut i = a;
    while i < b
        invariant
            a <= i <= b <= s.len(),
            v@ == s@.subrange(a as int, i as int),
        decreases b - i,
    {
        v.push(s[i]);
        assert(s@.subrange(a as int, i + 1) == s@.subrange(a as int, i as int).push(s@[i as int]));
        i += 1;
    }
    v
}

/// A copy of the bytes `s[a..b]`.
pub fn bytes_range(s: &[u8], a: usize, b: usize) -> (v: Vec<u8>)
    requires
        a <= b <= s.len(),
    ensures
        v@ == s@.subrange(a as int, b as int),
{
    let mut v: Vec<u8> = Vec::new();
    let mut i = a;
    while i < b
        invariant
            a <= i <= b <= s.len(),
            v@ == s@.subrange(a as int, i as int),
        decreases b - i,
    {
        v.push(s[i]);
        assert(s@.subrange(a as int, i + 1) == s@.subrange(a as int, i as int).push(s@[i as int]));
        i += 1;
    }
    v
}

/// Whether two character slices are equal.
pub fn chars_eq(a: &[char], b: &[char]) -> (r: bool)
    ensures
        r == (a@ == b@),
{
    if a.len() != b.len() {
        return false;
    }
    let mut i: usize = 0;
    while i < a.len()
        invariant
            a.len() == b.len(),
            i <= a.len(),
            forall|k: int| 0 <= k < i ==> a@[k] == b@[k],
        decreases a.len() - i,
    {
        if a[i] != b[i] {
            return false;
        }
        i += 1;
    }
    assert(a@ =~= b@);
    true
}

// ---------------------------------------------------------------------------
// Whitespace and trimming (`char::is_whitespace`, `str::trim*`)
// ---------------------------------------------------------------------------

/// Unicode `White_Space`, the property `char::is_whitespace` tests.
pub open spec fn is_whitespace(c: char) -> bool {
    let u = c as u32;
    ||| (9 <= u && u <= 13)
    ||| u == 32
    ||| u == 0x85
    ||| u == 0xA0
    ||| u == 0x1680
    ||| (0x2000 <= u && u <= 0x200A)
    ||| u == 0x2028
    ||| u == 0x2029
    ||| u == 0x202F
    ||| u == 0x205F
    ||| u == 0x3000
}

pub fn is_whitespace_exec(c: char) -> (r: bool)
    ensures
        r == is_whitespace(c),
{
    let u = c as u32;
    (9 <= u && u <= 13) || u == 32 || u == 0x85 || u == 0xA0 || u == 0x1680 || (0x2000 <= u && u
        <= 0x200A) || u == 0x2028 || u == 0x2029 || u == 0x202F || u == 0x205F || u == 0x3000
}

/// Number of leading whitespace characters.
pub open spec fn leading_ws(s: Seq<char>) -> nat
    decreases s.len(),
{
    if s.len() > 0 && is_whitespace(s[0]) {
        1 + leading_ws(s.drop_first())
    } else {
        0
    }
}

/// Number of trailing whitespace characters.
pub open spec fn trailing_ws(s: Seq<char>) -> nat
    decreases s.len(),
{
    if s.len() > 0 && is_whitespace(s.last()) {
        1 + trailing_ws(s.drop_last())
    } else {
        0
    }
}

/// `str::trim_start`.
pub open spec fn trim_start(s: Seq<char>) -> Seq<char> {
    s.skip(leading_ws(s) as int)
}

/// `str::trim_end`.
pub open spec fn trim_end(s: Seq<char>) -> Seq<char> {
    s.take(s.len() - trailing_ws(s))
}

/// `str::trim`.
pub open spec fn trim(s: Seq<char>) -> Seq<char> {
    trim_end(trim_start(s))
}

pub proof fn lemma_leading_ws(s: Seq<char>)
    ensures
        leading_ws(s) <= s.len(),
        forall|k: int| 0 <= k < leading_ws(s) ==> is_whitespace(#[trigger] s[k]),
        leading_ws(s) < s.len() ==> !is_whitespace(s[leading_ws(s) as int]),
    decreases s.len(),
{
    if s.len() > 0 && is_whitespace(s[0]) {
        lemma_leading_ws(s.drop_first());
        assert forall|k: int| 0 <= k < leading_ws(s) implies is_whitespace(#[trigger] s[k]) by {
            if k > 0 {
                assert(s[k] == s.drop_first()[k - 1]);
            }
        }
    }
}

pub proof fn lemma_trailing_ws(s: Seq<char>)
    ensures
        trailing_ws(s) <= s.len(),
        forall|k: int| s.len() - trailing_ws(s) <= k < s.len() ==> is_whitespace(#[trigger] s[k]),
        trailing_ws(s) < s.len() ==> !is_whitespace(s[s.len() - trailing_ws(s) - 1]),
    decreases s.len(),
{
    if s.len() > 0 && is_whitespace(s.last()) {
        lemma_trailing_ws(s.drop_last());
        assert forall|k: int| s.len() - trailing_ws(s) <= k < s.len() implies is_whitespace(
            #[trigger] s[k],
        ) by {
            if k < s.len() - 1 {
                assert(s[k] == s.drop_last()[k]);
            }
        }
    }
}

/// If the characters before `i` are whitespace and the one at `i` is not
/// (or `i` is the end), `i` is the number of leading whitespace characters.
pub proof fn lemma_leading_ws_char(s: Seq<char>, i: int)
    requires
        0 <= i <= s.len(),
        forall|k: int| 0 <= k < i ==> is_whitespace(#[trigger] s[k]),
        i < s.len() ==> !is_whitespace(s[i]),
    ensures
        leading_ws(s) == i,
    decreases s.len(),
{
    if i > 0 {
        assert(is_whitespace(s[0]));
        let t = s.drop_first();
        assert forall|k: int| 0 <= k < i - 1 implies is_whitespace(#[trigger] t[k]) by {
            assert(t[k] == s[k + 1]);
        }
        lemma_leading_ws_char(t, i - 1);
    } else if s.len() > 0 {
        assert(!is_whitespace(s[0]));
    }
}

pub proof fn lemma_trailing_ws_char(s: Seq<char>, i: int)
    requires
        0 <= i <= s.len(),
        forall|k: int| i <= k < s.len() ==> is_whitespace(#[trigger] s[k]),
        i > 0 ==> !is_whitespace(s[i - 1]),
    ensures
        trailing_ws(s) == s.len() - i,
    decreases s.len(),
{
    if i < s.len() {
        assert(is_whitespace(s.last()));
        let t = s.drop_last();
        assert forall|k: int| i <= k < t.len() implies is_whitespace(#[trigger] t[k]) by {
            assert(t[k] == s[k]);
        }
        lemma_trailing_ws_char(t, i);
    } else if s.len() > 0 {
        assert(!is_whitespace(s.last()));
    }
}

/// Bounds `[a, b)` of `trim(s[from..to])` inside `s`.
pub fn trim_bounds(s: &[char], from: usize, to: usize) -> (r: (usize, usize))
    requires
        from <= to <= s.len(),
    ensures
        from <= r.0 <= r.1 <= to,
        s@.subrange(r.0 as int, r.1 as int) == trim(s@.subrange(from as int, to as int)),
{
    let ghost t = s@.subrange(from as int, to as int);
    let mut a = from;
    while a < to && is_whitespace_exec(s[a])
        invariant
            from <= a <= to <= s.len(),
            forall|k: int| from <= k < a ==> is_whitespace(#[trigger] s@[k]),
        decreases to - a,
    {
        a += 1;
    }
    proof {
        assert forall|k: int| 0 <= k < a - from implies is_whitespace(#[trigger] t[k]) by {
            assert(t[k] == s@[from + k]);
        }
        lemma_leading_ws_char(t, a - from);
    }
    let ghost u = trim_start(t);
    assert(u == s@.subrange(a as int, to as int));
    let mut b = to;
    while b > a && is_whitespace_exec(s[b - 1])
        invariant
            from <= a <= b <= to <= s.len(),
            forall|k: int| b <= k < to ==> is_whitespace(#[trigger] s@[k]),
        decreases b - a,
    {
        b -= 1;
    }
    proof {
        assert forall|k: int| b - a <= k < u.len() implies is_whitespace(#[trigger] u[k]) by {
            assert(u[k] == s@[a + k]);
        }
        if b > a {
            assert(u[b - a - 1] == s@[b - 1]);
        }
        lemma_trailing_ws_char(u, b - a);
        assert(trim_end(u) == s@.subrange(a as int, b as int));
    }
    (a, b)
}

/// `str::trim`.
pub fn trim_chars(s: &[char]) -> (v: Vec<char>)
    ensures
        v@ == trim(s@),
{
    let (a, b) = trim_bounds(s, 0, s.len());
    assert(s@.subrange(0, s@.len() as int) == s@);
    copy_range(s, a, b)
}

/// `trim` never lengthens the text.
pub proof fn lemma_trim_len(s: Seq<char>)
    ensures
        trim(s).len() <= s.len(),
{
    lemma_leading_ws(s);
    lemma_trailing_ws(trim_start(s));
}

// ---------------------------------------------------------------------------
// Byte offsets (UTF-8 lengths, `str::len`, slicing at a byte index)
// ---------------------------------------------------------------------------

/// `char::len_utf8`.
pub open spec fn char_width(c: char) -> nat {
    let u = c as u32;
    if u < 0x80 {
        1
    } else if u < 0x800 {
        2
    } else if u < 0x10000 {
        3
    } else {
        4
    }
}

/// Length of the UTF-8 encoding of the text (`str::len`).
pub open spec fn byte_len(s: Seq<char>) -> nat
    decreases s.len(),
{
    if s.len() == 0 {
        0
    } else {
        char_width(s[0]) + byte_len(s.drop_first())
    }
}

/// The character index at byte offset `b`, where `b` is a character boundary;
/// `None` where slicing at `b` would panic.
pub open spec fn char_at_byte(s: Seq<char>, b: int) -> Option<int>
    decreases s.len(),
{
    if b == 0 {
        Some(0)
    } else if b < 0 || s.len() == 0 {
        None
    } else {
        match char_at_byte(s.drop_first(), b - char_width(s[0])) {
            Some(k) => Some(k + 1),
            None => None,
        }
    }
}

pub proof fn lemma_byte_len_pos(s: Seq<char>)
    ensures
        s.len() > 0 ==> byte_len(s) >= 1,
{
}

pub proof fn lemma_char_at_byte(s: Seq<char>, b: int)
    ensures
        char_at_byte(s, b) matches Some(k) ==> 0 <= k <= s.len() && (b != 0 ==> k >= 1),
    decreases s.len(),
{
    if b != 0 && b >= 0 && s.len() > 0 {
        lemma_char_at_byte(s.drop_first(), b - char_width(s[0]));
    }
}

/// `std::str::from_utf8` (std). Stated: the result is present exactly when
/// the bytes are valid UTF-8, and then holds the characters they encode.
#[verifier::external_body]
pub(crate) fn str_from_utf8(b: &[u8]) -> (r: Option<&str>)
    ensures
        r is Some <==> vstd::utf8::valid_utf8(b@),
        r matches Some(s) ==> s@ == vstd::utf8::decode_utf8(b@),
{
    match std::str::from_utf8(b) {
        Ok(s) => Some(s),
        Err(_) => None,
    }
}

/// `char::len_utf8`.
pub fn char_width_exec(c: char) -> (r: u8)
    ensures
        r == char_width(c),
{
    let u = c as u32;
    if u < 0x80 {
        1
    } else if u < 0x800 {
        2
    } else if u < 0x10000 {
        3
    } else {
        4
    }
}

/// `str::len` of the text, in a type wide enough for any text in memory.
pub fn byte_len_exec(s: &[char]) -> (r: u128)
    ensures
        r == byte_len(s@),
        r <= 4 * s@.len(),
{
    let mut k = s.len();
    let mut acc: u128 = 0;
    assert(s@.skip(s.len() as int) =~= Seq::<char>::empty());
    while k > 0
        invariant
            k <= s.len(),
            acc == byte_len(s@.skip(k as int)),
            acc <= 4 * (s.len() - k),
        decreases k,
    {
        k -= 1;
        let w = char_width_exec(s[k]);
        assert(s@.skip(k as int).drop_first() =~= s@.skip(k + 1));
        assert(s@.skip(k as int)[0] == s@[k as int]);
        acc = acc + w as u128;
    }
    assert(s@.skip(0) =~= s@);
    acc
}

/// The character index at byte offset `b` of the text, where `b` is a
/// character boundary.
pub fn char_at_byte_exec(s: &[char], b: u128) -> (r: Option<usize>)
    ensures
        match r {
            Some(k) => char_at_byte(s@, b as int) == Some(k as int),
            None => char_at_byte(s@, b as int) is None,
        },
{
    let mut k: usize = 0;
    let mut rem: u128 = b;
    assert(s@.skip(0) =~= s@);
    loop
        invariant
            k <= s.len(),
            char_at_byte(s@, b as int) == (match char_at_byte(s@.skip(k as int), rem as int) {
                Some(j) => Some(j + k),
                None => None,
            }),
        decreases s.len() - k,
    {
        if rem == 0 {
            return Some(k);
        }
        if k == s.len() {
            assert(s@.skip(k as int).len() == 0);
            return None;
        }
        let w = char_width_exec(s[k]) as u128;
        assert(s@.skip(k as int).drop_first() =~= s@.skip(k + 1));
        assert(s@.skip(k as int)[0] == s@[k as int]);
        if w > rem {
            proof {
                let t = s@.skip(k as int);
                assert(char_at_byte(t.drop_first(), rem as int - char_width(t[0])) is None);
                assert(char_at_byte(t, rem as int) is None);
            }
            return None;
        }
        rem = rem - w;
        k += 1;
    }
}

// ---------------------------------------------------------------------------
// Order of texts (`Ord` for `str`)
// ---------------------------------------------------------------------------

/// `a <= b` in `str`'s order: lexicographic by character.
pub open spec fn text_le(a: Seq<char>, b: Seq<char>) -> bool
    decreases a.len(),
{
    if a.len() == 0 {
        true
    } else if b.len() == 0 {
        false
    } else if a[0] != b[0] {
        (a[0] as u32) < (b[0] as u32)
    } else {
        text_le(a.drop_first(), b.drop_first())
    }
}

/// Any two texts are ordered one way or the other.
pub proof fn lemma_text_le_total(a: Seq<char>, b: Seq<char>)
    ensures
        text_le(a, b) || text_le(b, a),
    decreases a.len(),
{
    if a.len() > 0 && b.len() > 0 && a[0] == b[0] {
        lemma_text_le_total(a.drop_first(), b.drop_first());
    } else if a.len() > 0 && b.len() > 0 {
        vstd::utf8::char_u32_cast(a[0], a[0] as u32);
        vstd::utf8::char_u32_cast(b[0], b[0] as u32);
    }
}

/// The order is transitive.
pub proof fn lemma_text_le_trans(a: Seq<char>, b: Seq<char>, c: Seq<char>)
    requires
        text_le(a, b),
        text_le(b, c),
    ensures
        text_le(a, c),
    decreases a.len(),
{
    if a.len() > 0 && b.len() > 0 && c.len() > 0 && a[0] == b[0] && b[0] == c[0] {
        lemma_text_le_trans(a.drop_first(), b.drop_first(), c.drop_first());
    }
}

/// `a <= b` for texts.
pub fn text_le_exec(a: &[char], b: &[char]) -> (r: bool)
    ensures
        r == text_le(a@, b@),
{
    let mut i: usize = 0;
    assert(a@.skip(0) =~= a@ && b@.skip(0) =~= b@);
    loop
        invariant
            i <= a.len(),
            i <= b.len(),
            text_le(a@, b@) == text_le(a@.skip(i as int), b@.skip(i as int)),
        decreases a.len() - i,
    {
        if i == a.len() {
            return true;
        }
        if i == b.len() {
            return false;
        }
        assert(a@.skip(i as int)[0] == a@[i as int] && b@.skip(i as int)[0] == b@[i as int]);
        if a[i] != b[i] {
            return (a[i] as u32) < (b[i] as u32);
        }
        assert(a@.skip(i as int).drop_first() =~= a@.skip(i + 1));
        assert(b@.skip(i as int).drop_first() =~= b@.skip(i + 1));
        i += 1;
    }
}

// ---------------------------------------------------------------------------
// Substring search (`str::find`, `str::contains`)
// ---------------------------------------------------------------------------

/// `n` occurs in `h` starting at `i`.
pub open spec fn matches_at(h: Seq<char>, n: Seq<char>, i: int) -> bool {
    0 <= i && i + n.len() <= h.len() && h.subrange(i, i + n.len()) == n
}

/// First occurrence of `n` in `h` at or after `i`.
pub open spec fn find_from(h: Seq<char>, n: Seq<char>, i: int) -> Option<int>
    decreases h.len() + 1 - i,
{
    if i < 0 || i + n.len() > h.len() {
        None
    } else if matches_at(h, n, i) {
        Some(i)
    } else {
        find_from(h, n, i + 1)
    }
}

/// `str::find`: the first occurrence of `n` in `h`, in characters.
pub open spec fn find(h: Seq<char>, n: Seq<char>) -> Option<int> {
    find_from(h, n, 0)
}

/// `str::contains`.
pub open spec fn contains(h: Seq<char>, n: Seq<char>) -> bool {
    find(h, n) is Some
}

/// What `find_from` returns: the least match at or after `i`.
pub proof fn lemma_find_from(h: Seq<char>, n: Seq<char>, i: int)
    requires
        0 <= i,
    ensures
        find_from(h, n, i) matches Some(j) ==> i <= j && matches_at(h, n, j) && forall|k: int|
            i <= k < j ==> !matches_at(h, n, k),
        find_from(h, n, i) is None ==> forall|k: int| i <= k ==> !matches_at(h, n, k),
    decreases h.len() + 1 - i,
{
    if i + n.len() > h.len() {
    } else if matches_at(h, n, i) {
    } else {
        lemma_find_from(h, n, i + 1);
    }
}

/// A match at `j` with none in `[i, j)` is what `find_from` returns.
pub proof fn lemma_find_from_is(h: Seq<char>, n: Seq<char>, i: int, j: Option<int>)
    requires
        0 <= i,
        j matches Some(jj) ==> i <= jj && matches_at(h, n, jj) && forall|k: int|
            i <= k < jj ==> !matches_at(h, n, k),
        j is None ==> forall|k: int| i <= k ==> !matches_at(h, n, k),
    ensures
        find_from(h, n, i) == j,
{
    lemma_find_from(h, n, i);
    match find_from(h, n, i) {
        Some(a) => {
            match j {
                Some(b) => {
                    if a < b {
                        assert(!matches_at(h, n, a));
                    } else if b < a {
                        assert(!matches_at(h, n, b));
                    }
                },
                None => {
                    assert(!matches_at(h, n, a));
                },
            }
        },
        None => {
            if let Some(b) = j {
                assert(!matches_at(h, n, b));
            }
        },
    }
}

/// Searching a suffix is searching the whole from an offset.
pub proof fn lemma_find_skip(h: Seq<char>, n: Seq<char>, a: int)
    requires
        0 <= a <= h.len(),
    ensures
        find(h.skip(a), n) == (match find_from(h, n, a) {
            Some(j) => Some(j - a),
            None => None,
        }),
{
    let t = h.skip(a);
    assert forall|k: int| 0 <= k implies matches_at(t, n, k) == matches_at(h, n, a + k) by {
        if k + n.len() <= t.len() {
            assert(t.subrange(k, k + n.len()) =~= h.subrange(a + k, a + k + n.len()));
        }
    }
    lemma_find_from(h, n, a);
    let j = match find_from(h, n, a) {
        Some(j) => Some(j - a),
        None => None,
    };
    match find_from(h, n, a) {
        Some(jj) => {
            assert forall|k: int| 0 <= k < jj - a implies !matches_at(t, n, k) by {
                assert(!matches_at(h, n, a + k));
            }
            assert(matches_at(t, n, jj - a));
        },
        None => {
            assert forall|k: int| 0 <= k implies !matches_at(t, n, k) by {
                assert(!matches_at(h, n, a + k));
            }
        },
    }
    lemma_find_from_is(t, n, 0, j);
}

pub fn matches_at_exec(h: &[char], n: &[char], i: usize) -> (r: bool)
    ensures
        r == matches_at(h@, n@, i as int),
{
    if i > h.len() || n.len() > h.len() - i {
        return false;
    }
    let mut k: usize = 0;
    while k < n.len()
        invariant
            i + n.len() <= h.len(),
            k <= n.len(),
            forall|m: int| 0 <= m < k ==> h@[i + m] == n@[m],
        decreases n.len() - k,
    {
        if h[i + k] != n[k] {
            assert(h@.subrange(i as int, i + n.len())[k as int] != n@[k as int]);
            return false;
        }
        k += 1;
    }
    assert(h@.subrange(i as int, i + n.len()) =~= n@);
    true
}

/// `str::find` starting at character index `start`.
pub fn find_from_exec(h: &[char], n: &[char], start: usize) -> (r: Option<usize>)
    ensures
        match r {
            Some(i) => find_from(h@, n@, start as int) == Some(i as int),
            None => find_from(h@, n@, start as int) == None::<int>,
        },
{
    if n.len() > h.len() {
        return None;
    }
    let last = h.len() - n.len();
    let mut i = start;
    while i <= last
        invariant
            last == h.len() - n.len(),
            start <= i,
            find_from(h@, n@, start as int) == find_from(h@, n@, i as int),
        decreases last + 1 - i,
    {
        if matches_at_exec(h, n, i) {
            return Some(i);
        }
        if i == last {
            assert(find_from(h@, n@, i + 1) == None::<int>);
            return None;
        }
        i += 1;
    }
    None
}

/// `str::find`, in characters.
pub fn find_exec(h: &[char], n: &[char]) -> (r: Option<usize>)
    ensures
        match r {
            Some(i) => find(h@, n@) == Some(i as int),
            None => find(h@, n@) == None::<int>,
        },
{
    find_from_exec(h, n, 0)
}

/// `str::contains`.
pub fn contains_exec(h: &[char], n: &[char]) -> (r: bool)
    ensures
        r == contains(h@, n@),
{
    find_exec(h, n).is_some()
}

// ---------------------------------------------------------------------------
// Prefixes, suffixes and splitting
// ---------------------------------------------------------------------------

pub open spec fn starts_with(s: Seq<char>, p: Seq<char>) -> bool {
    p.len() <= s.len() && s.take(p.len() as int) == p
}

pub open spec fn ends_with(s: Seq<char>, p: Seq<char>) -> bool {
    p.len() <= s.len() && s.skip(s.len() - p.len()) == p
}

/// `str::strip_prefix`.
pub open spec fn strip_prefix(s: Seq<char>, p: Seq<char>) -> Option<Seq<char>> {
    if starts_with(s, p) {
        Some(s.skip(p.len() as int))
    } else {
        None
    }
}

/// `str::strip_suffix`.
pub open spec fn strip_suffix(s: Seq<char>, p: Seq<char>) -> Option<Seq<char>> {
    if ends_with(s, p) {
        Some(s.take(s.len() - p.len()))
    } else {
        None
    }
}

pub fn starts_with_exec(s: &[char], p: &[char]) -> (r: bool)
    ensures
        r == starts_with(s@, p@),
{
    let r = matches_at_exec(s, p, 0);
    proof {
        if p@.len() <= s@.len() {
            assert(s@.take(p@.len() as int) =~= s@.subrange(0, p@.len() as int));
        }
    }
    r
}

pub fn ends_with_exec(s: &[char], p: &[char]) -> (r: bool)
    ensures
        r == ends_with(s@, p@),
{
    if p.len() > s.len() {
        return false;
    }
    let r = matches_at_exec(s, p, s.len() - p.len());
    assert(s@.skip(s@.len() - p@.len()) =~= s@.subrange(s@.len() - p@.len(), s@.len() as int));
    r
}

/// The text before the first `pat`, and the text after it if there is one:
/// the first two items of `str::split(pat)` when `pat` occurs, else the whole.
pub open spec fn split_first(s: Seq<char>, pat: Seq<char>) -> (Seq<char>, Option<Seq<char>>) {
    match find(s, pat) {
        Some(i) => (s.take(i), Some(s.skip(i + pat.len()))),
        None => (s, None),
    }
}

/// `split_first` as bounds: `s[from..to]` splits into `s[from..r.0]` and,
/// when `pat` occurs, `s[r.1..to]`.
pub fn split_first_bounds(s: &[char], from: usize, to: usize, pat: &[char]) -> (r: (
    usize,
    Option<usize>,
))
    requires
        from <= to <= s.len(),
    ensures
        from <= r.0 <= to,
        r.1 matches Some(b) ==> r.0 <= b <= to,
        ({
            let t = s@.subrange(from as int, to as int);
            &&& split_first(t, pat@).0 == s@.subrange(from as int, r.0 as int)
            &&& (match r.1 {
                Some(b) => split_first(t, pat@).1 == Some(s@.subrange(b as int, to as int)),
                None => split_first(t, pat@).1 == None::<Seq<char>>,
            })
        }),
{
    let t = copy_range(s, from, to);
    match find_exec(t.as_slice(), pat) {
        Some(i) => {
            proof {
                lemma_find_from(t@, pat@, 0);
                assert(t@.take(i as int) =~= s@.subrange(from as int, from + i));
                assert(t@.skip(i + pat@.len()) =~= s@.subrange(from + i + pat@.len(), to as int));
            }
            (from + i, Some(from + i + pat.len()))
        },
        None => (to, None),
    }
}

// ---------------------------------------------------------------------------
// Lines (`str::lines`)
// ---------------------------------------------------------------------------

/// A line's `\r` before its `\n` is not part of the line.
pub open spec fn strip_cr(l: Seq<char>) -> Seq<char> {
    if l.len() > 0 && l.last() == '\r' {
        l.drop_last()
    } else {
        l
    }
}

/// `str::lines`: split at `\n` (and `\r\n`); a final line ending is optional
/// and a last line without one is kept as it is.
pub open spec fn lines(s: Seq<char>) -> Seq<Seq<char>>
    decreases s.len(),
{
    if s.len() == 0 {
        seq![]
    } else {
        match find(s, seq!['\n']) {
            Some(i) => {
                proof {
                    lemma_find_from(s, seq!['\n'], 0);
                }
                seq![strip_cr(s.take(i))] + lines(s.skip(i + 1))
            },
            None => seq![s],
        }
    }
}

pub fn newline() -> (v: Vec<char>)
    ensures
        v@ == seq!['\n'],
{
    let mut v = Vec::new();
    v.push('\n');
    v
}

/// `str::lines`.
pub fn lines_exec(s: &[char]) -> (r: Vec<Vec<char>>)
    ensures
        r.deep_view() == lines(s@),
{
    let nl = newline();
    let mut out: Vec<Vec<char>> = Vec::new();
    let mut start: usize = 0;
    assert(s@.skip(0) == s@);
    while start < s.len()
        invariant
            start <= s.len(),
            nl@ == seq!['\n'],
            lines(s@) == out.deep_view() + lines(s@.skip(start as int)),
        decreases s.len() - start,
    {
        let ghost t = s@.skip(start as int);
        proof {
            lemma_find_skip(s@, nl@, start as int);
            lemma_find_from(s@, nl@, start as int);
        }
        match find_from_exec(s, nl.as_slice(), start) {
            Some(j) => {
                let end = if j > start && s[j - 1] == '\r' {
                    j - 1
                } else {
                    j
                };
                let line = copy_range(s, start, end);
                proof {
                    assert(t.take(j - start) =~= s@.subrange(start as int, j as int));
                    if j > start && s@[j - 1] == '\r' {
                        assert(strip_cr(t.take(j - start)) =~= s@.subrange(start as int, end as int));
                    }
                    assert(strip_cr(t.take(j - start)) == line@);
                    assert(t.len() > 0);
                    assert(find(t, seq!['\n']) == Some(j - start));
                    assert(lines(t) == seq![strip_cr(t.take(j - start))] + lines(t.skip(j - start + 1)));
                    assert(t.skip(j - start + 1) =~= s@.skip(j + 1));
                    assert(lines(t) == seq![line@] + lines(s@.skip(j + 1)));
                    assert(out.deep_view().push(line@) + lines(s@.skip(j + 1)) =~= out.deep_view()
                        + (seq![line@] + lines(s@.skip(j + 1))));
                }
                let ghost prev = out.deep_view();
                assert(line.deep_view() =~= line@);
                out.push(line);
                assert(out.deep_view() =~= prev.push(line@));
                start = j + 1;
            },
            None => {
                let line = copy_range(s, start, s.len());
                proof {
                    assert(t =~= line@);
                    assert(s@.skip(s@.len() as int) =~= Seq::<char>::empty());
                    assert(lines(Seq::<char>::empty()) =~= Seq::<Seq<char>>::empty());
                    assert(out.deep_view().push(line@) =~= out.deep_view() + seq![line@]);
                    assert(out.deep_view().push(line@) =~= out.deep_view().push(line@) + lines(
                        s@.skip(s@.len() as int),
                    ));
                }
                let ghost prev = out.deep_view();
                assert(line.deep_view() =~= line@);
                out.push(line);
                assert(out.deep_view() =~= prev.push(line@));
                start = s.len();
            },
        }
    }
    assert(s@.skip(start as int) =~= Seq::<char>::empty());
    assert(out.deep_view() + lines(Seq::<char>::empty()) =~= out.deep_view());
    out
}

// ---------------------------------------------------------------------------
// Words (`str::split_whitespace`)
// ---------------------------------------------------------------------------

/// Number of leading characters that are not whitespace.
pub open spec fn word_len(s: Seq<char>) -> nat
    decreases s.len(),
{
    if s.len() > 0 && !is_whitespace(s[0]) {
        1 + word_len(s.drop_first())
    } else {
        0
    }
}

pub proof fn lemma_word_len_char(s: Seq<char>, i: int)
    requires
        0 <= i <= s.len(),
        forall|k: int| 0 <= k < i ==> !is_whitespace(#[trigger] s[k]),
        i < s.len() ==> is_whitespace(s[i]),
    ensures
        word_len(s) == i,
    decreases s.len(),
{
    if i > 0 {
        assert(!is_whitespace(s[0]));
        let t = s.drop_first();
        assert forall|k: int| 0 <= k < i - 1 implies !is_whitespace(#[trigger] t[k]) by {
            assert(t[k] == s[k + 1]);
        }
        lemma_word_len_char(t, i - 1);
    } else if s.len() > 0 {
        assert(is_whitespace(s[0]));
    }
}

pub proof fn lemma_word_len_bound(s: Seq<char>)
    ensures
        word_len(s) <= s.len(),
        s.len() > 0 && !is_whitespace(s[0]) ==> word_len(s) >= 1,
    decreases s.len(),
{
    if s.len() > 0 && !is_whitespace(s[0]) {
        lemma_word_len_bound(s.drop_first());
    }
}

/// `str::split_whitespace`: the maximal runs of non-whitespace characters.
pub open spec fn split_whitespace(s: Seq<char>) -> Seq<Seq<char>>
    decreases s.len(),
{
    let t = trim_start(s);
    if t.len() == 0 {
        seq![]
    } else {
        let w = word_len(t);
        proof {
            lemma_leading_ws(s);
            lemma_word_len_bound(t);
        }
        seq![t.take(w as int)] + split_whitespace(t.skip(w as int))
    }
}

/// `str::split_whitespace`.
pub fn split_whitespace_exec(s: &[char]) -> (r: Vec<Vec<char>>)
    ensures
        r.deep_view() == split_whitespace(s@),
{
    let mut out: Vec<Vec<char>> = Vec::new();
    let mut pos: usize = 0;
    assert(s@.skip(0) == s@);
    loop
        invariant
            pos <= s.len(),
            split_whitespace(s@) == out.deep_view() + split_whitespace(s@.skip(pos as int)),
        decreases s.len() - pos,
    {
        let ghost t = s@.skip(pos as int);
        let mut a = pos;
        while a < s.len() && is_whitespace_exec(s[a])
            invariant
                pos <= a <= s.len(),
                forall|k: int| pos <= k < a ==> is_whitespace(#[trigger] s@[k]),
            decreases s.len() - a,
        {
            a += 1;
        }
        proof {
            assert forall|k: int| 0 <= k < a - pos implies is_whitespace(#[trigger] t[k]) by {
                assert(t[k] == s@[pos + k]);
            }
            if a < s.len() {
                assert(t[a - pos] == s@[a as int]);
            }
            lemma_leading_ws_char(t, a - pos);
            assert(trim_start(t) =~= s@.skip(a as int));
        }
        if a == s.len() {
            assert(split_whitespace(t) =~= Seq::<Seq<char>>::empty());
            assert(out.deep_view() + split_whitespace(t) =~= out.deep_view());
            return out;
        }
        let mut b = a;
        while b < s.len() && !is_whitespace_exec(s[b])
            invariant
                a <= b <= s.len(),
                forall|k: int| a <= k < b ==> !is_whitespace(#[trigger] s@[k]),
            decreases s.len() - b,
        {
            b += 1;
        }
        let ghost u = s@.skip(a as int);
        proof {
            assert forall|k: int| 0 <= k < b - a implies !is_whitespace(#[trigger] u[k]) by {
                assert(u[k] == s@[a + k]);
            }
            if b < s.len() {
                assert(u[b - a] == s@[b as int]);
            }
            lemma_word_len_char(u, b - a);
            lemma_leading_ws(t);
            assert(u.take(b - a) =~= s@.subrange(a as int, b as int));
            assert(u.skip(b - a) =~= s@.skip(b as int));
        }
        let word = copy_range(s, a, b);
        proof {
            assert(split_whitespace(t) == seq![word@] + split_whitespace(s@.skip(b as int)));
            assert(out.deep_view().push(word@) + split_whitespace(s@.skip(b as int)) =~= out.deep_view()
                + (seq![word@] + split_whitespace(s@.skip(b as int))));
        }
        let ghost prev = out.deep_view();
        assert(word.deep_view() =~= word@);
        out.push(word);
        assert(out.deep_view() =~= prev.push(word@));
        pos = b;
    }
}

// ---------------------------------------------------------------------------
// Repeated prefix and suffix removal (`str::trim_start_matches`, `trim_end_matches`)
// ---------------------------------------------------------------------------

/// `str::trim_start_matches` with a non-empty string pattern; an empty
/// pattern leaves the text as it is.
pub open spec fn trim_start_matches(s: Seq<char>, p: Seq<char>) -> Seq<char>
    decreases s.len(),
{
    if p.len() > 0 && starts_with(s, p) {
        trim_start_matches(s.skip(p.len() as int), p)
    } else {
        s
    }
}

/// `str::trim_end_matches` with a non-empty string pattern.
pub open spec fn trim_end_matches(s: Seq<char>, p: Seq<char>) -> Seq<char>
    decreases s.len(),
{
    if p.len() > 0 && ends_with(s, p) {
        trim_end_matches(s.take(s.len() - p.len()), p)
    } else {
        s
    }
}

pub fn trim_start_matches_exec(s: &[char], p: &[char]) -> (r: Vec<char>)
    ensures
        r@ == trim_start_matches(s@, p@),
{
    if p.len() == 0 {
        return copy_range(s, 0, s.len());
    }
    let mut a: usize = 0;
    assert(s@.skip(0) =~= s@);
    while a <= s.len() && matches_at_exec(s, p, a)
        invariant
            p.len() > 0,
            a <= s.len(),
            trim_start_matches(s@, p@) == trim_start_matches(s@.skip(a as int), p@),
        decreases s.len() - a,
    {
        let ghost t = s@.skip(a as int);
        proof {
            assert(t.take(p@.len() as int) =~= s@.subrange(a as int, a + p@.len()));
            assert(t.skip(p@.len() as int) =~= s@.skip(a + p@.len()));
        }
        a = a + p.len();
    }
    let ghost t = s@.skip(a as int);
    proof {
        if p@.len() <= t.len() {
            assert(t.take(p@.len() as int) =~= s@.subrange(a as int, a + p@.len()));
        }
    }
    copy_range(s, a, s.len())
}

pub fn trim_end_matches_exec(s: &[char], p: &[char]) -> (r: Vec<char>)
    ensures
        r@ == trim_end_matches(s@, p@),
{
    if p.len() == 0 {
        return copy_range(s, 0, s.len());
    }
    let mut b: usize = s.len();
    assert(s@.take(s@.len() as int) =~= s@);
    while b >= p.len() && matches_at_exec(s, p, b - p.len())
        invariant
            p.len() > 0,
            b <= s.len(),
            trim_end_matches(s@, p@) == trim_end_matches(s@.take(b as int), p@),
        decreases b,
    {
        let ghost t = s@.take(b as int);
        proof {
            assert(t.skip(t.len() - p@.len()) =~= s@.subrange(b - p@.len(), b as int));
            assert(t.take(t.len() - p@.len()) =~= s@.take(b - p@.len()));
        }
        b = b - p.len();
    }
    let ghost t = s@.take(b as int);
    proof {
        if p@.len() <= t.len() {
            assert(t.skip(t.len() - p@.len()) =~= s@.subrange(b - p@.len(), b as int));
        }
    }
    copy_range(s, 0, b)
}

pub fn strip_prefix_exec(s: &[char], p: &[char]) -> (r: Option<Vec<char>>)
    ensures
        match r {
            Some(v) => strip_prefix(s@, p@) == Some(v@),
            None => strip_prefix(s@, p@) == None::<Seq<char>>,
        },
{
    if starts_with_exec(s, p) {
        Some(copy_range(s, p.len(), s.len()))
    } else {
        None
    }
}

pub fn strip_suffix_exec(s: &[char], p: &[char]) -> (r: Option<Vec<char>>)
    ensures
        match r {
            Some(v) => strip_suffix(s@, p@) == Some(v@),
            None => strip_suffix(s@, p@) == None::<Seq<char>>,
        },
{
    if ends_with_exec(s, p) {
        Some(copy_range(s, 0, s.len() - p.len()))
    } else {
        None
    }
}

// ---------------------------------------------------------------------------
// Unsigned integers (`str::parse`, `from_str_radix`, decimal formatting)
// ---------------------------------------------------------------------------

/// `char::to_digit(radix)` for `radix <= 36`.
pub open spec fn char_digit(c: char, radix: nat) -> Option<nat> {
    let u = c as u32 as int;
    let d: int = if 48 <= u <= 57 {
        u - 48
    } else if 97 <= u <= 122 {
        u - 97 + 10
    } else if 65 <= u <= 90 {
        u - 65 + 10
    } else {
        99
    };
    if d < radix {
        Some(d as nat)
    } else {
        None
    }
}

pub open spec fn all_digits(s: Seq<char>, radix: nat) -> bool {
    forall|i: int| 0 <= i < s.len() ==> (#[trigger] char_digit(s[i], radix)) is Some
}

/// The value of a run of digits, most significant first.
pub open spec fn digits_value(s: Seq<char>, radix: nat) -> nat
    decreases s.len(),
{
    if s.len() == 0 {
        0
    } else {
        digits_value(s.drop_last(), radix) * radix + match char_digit(s.last(), radix) {
            Some(d) => d,
            None => 0,
        }
    }
}

/// The digits that `from_str_radix` reads: an optional leading `+` is skipped.
pub open spec fn unsigned_digits(s: Seq<char>) -> Seq<char> {
    if s.len() > 0 && s[0] == '+' {
        s.drop_first()
    } else {
        s
    }
}

/// `from_str_radix` (and `str::parse`) for an unsigned type whose largest
/// value is `max`: an optional `+` and then at least one digit, with the
/// value at most `max`.
pub open spec fn parse_uint(s: Seq<char>, radix: nat, max: nat) -> Option<nat> {
    let d = unsigned_digits(s);
    if d.len() == 0 || !all_digits(d, radix) || digits_value(d, radix) > max {
        None
    } else {
        Some(digits_value(d, radix))
    }
}

pub fn char_digit_exec(c: char, radix: u32) -> (r: Option<u32>)
    requires
        radix <= 36,
    ensures
        match r {
            Some(d) => char_digit(c, radix as nat) == Some(d as nat),
            None => char_digit(c, radix as nat) is None,
        },
{
    let u = c as u32;
    let d: u32 = if 48 <= u && u <= 57 {
        u - 48
    } else if 97 <= u && u <= 122 {
        u - 97 + 10
    } else if 65 <= u && u <= 90 {
        u - 65 + 10
    } else {
        99
    };
    if d < radix {
        Some(d)
    } else {
        None
    }
}

pub proof fn lemma_digits_value_take(s: Seq<char>, radix: nat, k: int)
    requires
        0 <= k < s.len(),
    ensures
        digits_value(s.take(k + 1), radix) == digits_value(s.take(k), radix) * radix + match char_digit(
            s[k],
            radix,
        ) {
            Some(d) => d,
            None => 0,
        },
{
    assert(s.take(k + 1).drop_last() =~= s.take(k));
}

pub proof fn lemma_digits_value_monotone(s: Seq<char>, radix: nat, k: int)
    requires
        0 <= k <= s.len(),
        radix >= 1,
    ensures
        digits_value(s, radix) >= digits_value(s.take(k), radix),
    decreases s.len() - k,
{
    if k < s.len() {
        lemma_digits_value_take(s, radix, k);
        let a = digits_value(s.take(k), radix);
        assert(a * radix >= a) by (nonlinear_arith)
            requires
                radix >= 1,
        ;
        lemma_digits_value_monotone(s, radix, k + 1);
    } else {
        assert(s.take(k) =~= s);
    }
}

/// `from_str_radix` for an unsigned type whose largest value is `max`.
pub fn parse_uint_exec(s: &[char], radix: u32, max: u64) -> (r: Option<u64>)
    requires
        2 <= radix <= 36,
    ensures
        match r {
            Some(v) => parse_uint(s@, radix as nat, max as nat) == Some(v as nat),
            None => parse_uint(s@, radix as nat, max as nat) is None,
        },
{
    let ghost d = unsigned_digits(s@);
    let start: usize = if s.len() > 0 && s[0] == '+' {
        1
    } else {
        0
    };
    assert(d =~= s@.skip(start as int));
    if start >= s.len() {
        return None;
    }
    let mut acc: u64 = 0;
    let mut i = start;
    assert(d.take(0) =~= Seq::<char>::empty());
    while i < s.len()
        invariant
            2 <= radix <= 36,
            start <= i <= s.len(),
            d == s@.skip(start as int),
            d == unsigned_digits(s@),
            acc as nat == digits_value(d.take(i - start), radix as nat),
            acc <= max,
            forall|k: int| 0 <= k < i - start ==> (#[trigger] char_digit(d[k], radix as nat)) is Some,
        decreases s.len() - i,
    {
        let ghost k = i - start;
        assert(d[k] == s@[i as int]);
        proof {
            lemma_digits_value_take(d, radix as nat, k);
        }
        let dv = match char_digit_exec(s[i], radix) {
            Some(v) => v,
            None => {
                assert(char_digit(d[k], radix as nat) is None);
                assert(!all_digits(d, radix as nat));
                return None;
            },
        };
        let next = match acc.checked_mul(radix as u64) {
            Some(m) => m.checked_add(dv as u64),
            None => None,
        };
        match next {
            Some(v) => {
                if v > max {
                    proof {
                        if all_digits(d, radix as nat) {
                            lemma_digits_value_monotone(d, radix as nat, k + 1);
                        }
                    }
                    return None;
                }
                acc = v;
            },
            None => {
                proof {
                    assert(acc * radix + dv > max) by (nonlinear_arith)
                        requires
                            acc * radix > u64::MAX || acc * radix + dv > u64::MAX,
                            max <= u64::MAX,
                            dv >= 0,
                    ;
                    if all_digits(d, radix as nat) {
                        lemma_digits_value_monotone(d, radix as nat, k + 1);
                    }
                }
                return None;
            },
        }
        i += 1;
    }
    assert(d.take(i - start) =~= d);
    Some(acc)
}

/// The character of a decimal digit.
pub open spec fn digit_char(d: nat) -> char {
    if d == 0 {
        '0'
    } else if d == 1 {
        '1'
    } else if d == 2 {
        '2'
    } else if d == 3 {
        '3'
    } else if d == 4 {
        '4'
    } else if d == 5 {
        '5'
    } else if d == 6 {
        '6'
    } else if d == 7 {
        '7'
    } else if d == 8 {
        '8'
    } else {
        '9'
    }
}

/// Decimal representation of `n` with no leading zeros (`Display` of an integer).
pub open spec fn decimal(n: nat) -> Seq<char>
    decreases n,
{
    if n < 10 {
        seq![digit_char(n)]
    } else {
        decimal(n / 10).push(digit_char(n % 10))
    }
}

pub fn digit_char_exec(d: u64) -> (c: char)
    requires
        d < 10,
    ensures
        c == digit_char(d as nat),
{
    if d == 0 {
        '0'
    } else if d == 1 {
        '1'
    } else if d == 2 {
        '2'
    } else if d == 3 {
        '3'
    } else if d == 4 {
        '4'
    } else if d == 5 {
        '5'
    } else if d == 6 {
        '6'
    } else if d == 7 {
        '7'
    } else if d == 8 {
        '8'
    } else {
        '9'
    }
}

/// Decimal representation of `n` (as `n.to_string()` writes it).
pub fn decimal_exec(n: u64) -> (v: Vec<char>)
    ensures
        v@ == decimal(n as nat),
    decreases n,
{
    if n < 10 {
        let mut v = Vec::new();
        v.push(digit_char_exec(n));
        assert(v@ =~= seq![digit_char(n as nat)]);
        v
    } else {
        let mut v = decimal_exec(n / 10);
        v.push(digit_char_exec(n % 10));
        v
    }
}

pub proof fn lemma_digit_char(d: nat)
    requires
        d < 10,
    ensures
        char_digit(digit_char(d), 10) == Some(d),
        digit_char(d) != '+',
{
}

pub proof fn lemma_decimal(n: nat)
    ensures
        decimal(n).len() >= 1,
        all_digits(decimal(n), 10),
        digits_value(decimal(n), 10) == n,
        decimal(n)[0] != '+',
    decreases n,
{
    if n < 10 {
        lemma_digit_char(n);
        let s = decimal(n);
        assert(s.drop_last() =~= Seq::<char>::empty());
        assert(digits_value(s.drop_last(), 10) == 0);
    } else {
        lemma_decimal(n / 10);
        lemma_digit_char(n % 10);
        let s = decimal(n);
        assert(s.drop_last() =~= decimal(n / 10));
        assert(s.last() == digit_char(n % 10));
        assert(digits_value(s, 10) == digits_value(decimal(n / 10), 10) * 10 + n % 10);
        assert((n / 10) * 10 + n % 10 == n);
        assert forall|i: int| 0 <= i < s.len() implies (#[trigger] char_digit(s[i], 10)) is Some by {
            if i < s.len() - 1 {
                assert(s[i] == decimal(n / 10)[i]);
            }
        }
    }
}

/// Reading back a decimal representation gives the number.
pub proof fn lemma_parse_decimal(n: nat, max: nat)
    requires
        n <= max,
    ensures
        parse_uint(decimal(n), 10, max) == Some(n),
{
    lemma_decimal(n);
}

// ---------------------------------------------------------------------------
// Text that only std can compute
// ---------------------------------------------------------------------------

pub open spec fn is_ascii_text(s: Seq<char>) -> bool {
    forall|i: int| 0 <= i < s.len() ==> (#[trigger] s[i]) as u32 <= 127
}

pub open spec fn ascii_lower_char(c: char) -> char {
    if 65 <= c as u32 && c as u32 <= 90 {
        ((c as u32 + 32) as char)
    } else {
        c
    }
}

pub open spec fn ascii_lowercase(s: Seq<char>) -> Seq<char> {
    Seq::new(s.len(), |i: int| ascii_lower_char(s[i]))
}

/// What `str::to_lowercase` returns for a text.
pub uninterp spec fn lowercase(s: Seq<char>) -> Seq<char>;

/// `str::to_lowercase` (std). Stated: the result is `lowercase` of the
/// argument, and for ASCII text it is the ASCII lowercase mapping (the Unicode
/// lowercase of an ASCII letter is its ASCII lowercase letter). The mapping of
/// other characters is not stated.
#[verifier::external_body]
pub(crate) fn to_lowercase(s: &str) -> (r: String)
    ensures
        r@ == lowercase(s@),
        is_ascii_text(s@) ==> r@ == ascii_lowercase(s@),
{
    s.to_lowercase()
}

/// What `String::from_utf8_lossy` returns for a byte sequence.
pub uninterp spec fn utf8_lossy(b: Seq<u8>) -> Seq<char>;

/// `String::from_utf8_lossy` (std). Stated: the result is `utf8_lossy` of the
/// bytes, and bytes that are valid UTF-8 decode to their characters. How
/// invalid sequences are replaced is not stated.
#[verifier::external_body]
pub(crate) fn from_utf8_lossy(b: &[u8]) -> (r: String)
    ensures
        r@ == utf8_lossy(b@),
        vstd::utf8::valid_utf8(b@) ==> r@ == vstd::utf8::decode_utf8(b@),
{
    String::from_utf8_lossy(b).into_owned()
}

// ---------------------------------------------------------------------------
// Helpers shared by the parsers
// ---------------------------------------------------------------------------

/// The deep view of a vector of character vectors is the views of its items.
pub proof fn lemma_deep_view_chars(v: &Vec<Vec<char>>)
    ensures
        v.deep_view().len() == v@.len(),
        forall|i: int| 0 <= i < v@.len() ==> #[trigger] v.deep_view()[i] == v@[i]@,
{
    assert forall|i: int| 0 <= i < v@.len() implies #[trigger] v.deep_view()[i] == v@[i]@ by {
        assert(v@[i].deep_view() =~= v@[i]@);
    }
}

/// `char::is_ascii_digit`.
pub open spec fn is_ascii_digit(c: char) -> bool {
    48 <= c as u32 && c as u32 <= 57
}

pub open spec fn all_ascii_digits(s: Seq<char>) -> bool {
    forall|i: int| 0 <= i < s.len() ==> is_ascii_digit(#[trigger] s[i])
}

pub fn is_ascii_digit_exec(c: char) -> (r: bool)
    ensures
        r == is_ascii_digit(c),
{
    let u = c as u32;
    48 <= u && u <= 57
}

pub fn all_ascii_digits_exec(s: &[char]) -> (r: bool)
    ensures
        r == all_ascii_digits(s@),
{
    let mut i: usize = 0;
    while i < s.len()
        invariant
            i <= s.len(),
            forall|k: int| 0 <= k < i ==> is_ascii_digit(#[trigger] s@[k]),
        decreases s.len() - i,
    {
        if !is_ascii_digit_exec(s[i]) {
            return false;
        }
        i += 1;
    }
    true
}

/// Number of leading ASCII digits (`chars().take_while(is_ascii_digit)`).
pub open spec fn digit_prefix_len(s: Seq<char>) -> nat
    decreases s.len(),
{
    if s.len() > 0 && is_ascii_digit(s[0]) {
        1 + digit_prefix_len(s.drop_first())
    } else {
        0
    }
}

pub proof fn lemma_digit_prefix_len(s: Seq<char>, i: int)
    requires
        0 <= i <= s.len(),
        forall|k: int| 0 <= k < i ==> is_ascii_digit(#[trigger] s[k]),
        i < s.len() ==> !is_ascii_digit(s[i]),
    ensures
        digit_prefix_len(s) == i,
    decreases s.len(),
{
    if i > 0 {
        let t = s.drop_first();
        assert forall|k: int| 0 <= k < i - 1 implies is_ascii_digit(#[trigger] t[k]) by {
            assert(t[k] == s[k + 1]);
        }
        lemma_digit_prefix_len(t, i - 1);
    }
}

/// The leading ASCII digits of `s[from..]`.
pub fn digit_prefix_exec(s: &[char], from: usize) -> (v: Vec<char>)
    requires
        from <= s.len(),
    ensures
        v@ == s@.skip(from as int).take(digit_prefix_len(s@.skip(from as int)) as int),
{
    let mut b = from;
    while b < s.len() && is_ascii_digit_exec(s[b])
        invariant
            from <= b <= s.len(),
            forall|k: int| from <= k < b ==> is_ascii_digit(#[trigger] s@[k]),
        decreases s.len() - b,
    {
        b += 1;
    }
    let ghost t = s@.skip(from as int);
    proof {
        assert forall|k: int| 0 <= k < b - from implies is_ascii_digit(#[trigger] t[k]) by {
            assert(t[k] == s@[from + k]);
        }
        if b < s.len() {
            assert(t[b - from] == s@[b as int]);
        }
        lemma_digit_prefix_len(t, b - from);
        assert(t.take(b - from) =~= s@.subrange(from as int, b as int));
    }
    copy_range(s, from, b)
}

/// Last index of `c` in `s` (`str::rfind` with a character).
pub open spec fn rfind_char(s: Seq<char>, c: char) -> Option<int>
    decreases s.len(),
{
    if s.len() == 0 {
        None
    } else if s.last() == c {
        Some(s.len() - 1)
    } else {
        rfind_char(s.drop_last(), c)
    }
}

pub proof fn lemma_rfind_char(s: Seq<char>, c: char)
    ensures
        rfind_char(s, c) matches Some(i) ==> 0 <= i < s.len() && s[i] == c && forall|k: int|
            i < k < s.len() ==> s[k] != c,
        rfind_char(s, c) is None ==> forall|k: int| 0 <= k < s.len() ==> s[k] != c,
    decreases s.len(),
{
    if s.len() > 0 && s.last() != c {
        lemma_rfind_char(s.drop_last(), c);
        assert forall|k: int| 0 <= k < s.len() - 1 implies s[k] == s.drop_last()[k] by {}
    }
}

pub fn rfind_char_exec(s: &[char], c: char) -> (r: Option<usize>)
    ensures
        match r {
            Some(i) => rfind_char(s@, c) == Some(i as int),
            None => rfind_char(s@, c) == None::<int>,
        },
{
    let mut i = s.len();
    assert(s@.take(s@.len() as int) =~= s@);
    while i > 0
        invariant
            i <= s.len(),
            rfind_char(s@, c) == rfind_char(s@.take(i as int), c),
        decreases i,
    {
        let ghost t = s@.take(i as int);
        assert(t.last() == s@[i - 1]);
        if s[i - 1] == c {
            return Some(i - 1);
        }
        assert(t.drop_last() =~= s@.take(i - 1));
        i -= 1;
    }
    None
}

/// Equality of a character slice with a string literal.
pub fn eq_str(a: &[char], lit: &str) -> (r: bool)
    ensures
        r == (a@ == lit@),
{
    let l = chars_of(lit);
    chars_eq(a, l.as_slice())
}

/// `str::split` with a non-empty pattern: the pieces between occurrences.
pub open spec fn split(s: Seq<char>, pat: Seq<char>) -> Seq<Seq<char>>
    decreases s.len(),
{
    match find(s, pat) {
        Some(i) => {
            if pat.len() > 0 && 0 <= i && i + pat.len() <= s.len() {
                seq![s.take(i)] + split(s.skip(i + pat.len()), pat)
            } else {
                seq![s]
            }
        },
        None => seq![s],
    }
}

/// `str::split` with a non-empty pattern.
pub fn split_exec(s: &[char], pat: &[char]) -> (r: Vec<Vec<char>>)
    requires
        pat.len() > 0,
    ensures
        r.deep_view() == split(s@, pat@),
{
    let mut out: Vec<Vec<char>> = Vec::new();
    let mut start: usize = 0;
    assert(s@.skip(0) == s@);
    loop
        invariant
            pat.len() > 0,
            start <= s.len(),
            split(s@, pat@) == out.deep_view() + split(s@.skip(start as int), pat@),
        decreases s.len() - start,
    {
        let ghost t = s@.skip(start as int);
        proof {
            lemma_find_skip(s@, pat@, start as int);
            lemma_find_from(s@, pat@, start as int);
        }
        match find_from_exec(s, pat, start) {
            Some(j) => {
                let piece = copy_range(s, start, j);
                proof {
                    assert(t.take(j - start) =~= piece@);
                    assert(t.skip(j - start + pat@.len()) =~= s@.skip(j + pat@.len()));
                }
                let ghost prev = out.deep_view();
                assert(piece.deep_view() =~= piece@);
                out.push(piece);
                assert(out.deep_view() =~= prev.push(piece@));
                assert(prev.push(piece@) + split(s@.skip(j + pat@.len()), pat@) =~= prev + (seq![piece@]
                    + split(s@.skip(j + pat@.len()), pat@)));
                start = j + pat.len();
            },
            None => {
                let piece = copy_range(s, start, s.len());
                assert(t =~= piece@);
                let ghost prev = out.deep_view();
                assert(piece.deep_view() =~= piece@);
                out.push(piece);
                assert(out.deep_view() =~= prev.push(piece@));
                assert(prev + seq![piece@] =~= prev.push(piece@));
                return out;
            },
        }
    }
}

/// The value a key has in a JSON object, as far as it is read: absent, a
/// string, or another kind of value.
#[derive(Clone, Debug, PartialEq, Eq)]
pub enum FieldValue {
    Missing,
    Text(String),
    Other,
}

/// The view of an optional string slice.
pub open spec fn opt_str_view(o: Option<&str>) -> Option<Seq<char>> {
    match o {
        Some(s) => Some(s@),
        None => None,
    }
}

} // verus!
