//! Character classes and string helpers shared by the source reader and the lexer.
//!
//! Text is handled as sequences of `char`; the specifications describe the
//! Unicode and ASCII classes that the G-code readers rely on.
use vstd::prelude::*;

verus! {

/// Unicode `White_Space` property, the set of characters that `str::trim` removes.
pub open spec fn is_whitespace(c: char) -> bool {
    let u = c as u32;
    ||| 0x09 <= u && u <= 0x0D
    ||| u == 0x20
    ||| u == 0x85
    ||| u == 0xA0
    ||| u == 0x1680
    ||| 0x2000 <= u && u <= 0x200A
    ||| u == 0x2028
    ||| u == 0x2029
    ||| u == 0x202F
    ||| u == 0x205F
    ||| u == 0x3000
}

pub open spec fn is_ascii(c: char) -> bool {
    (c as u32) < 128
}

/// ASCII control characters: `0x00..=0x1F` and `0x7F`.
pub open spec fn is_ascii_control(c: char) -> bool {
    (c as u32) < 32 || (c as u32) == 127
}

pub open spec fn is_ascii_lower(c: char) -> bool {
    'a' <= c && c <= 'z'
}

pub open spec fn is_ascii_upper(c: char) -> bool {
    'A' <= c && c <= 'Z'
}

pub open spec fn is_ascii_alphabetic(c: char) -> bool {
    is_ascii_lower(c) || is_ascii_upper(c)
}

pub open spec fn is_ascii_digit(c: char) -> bool {
    '0' <= c && c <= '9'
}

/// Numeric value of an ASCII digit.
pub open spec fn digit_value(c: char) -> nat {
    ((c as u32) - ('0' as u32)) as nat
}

/// `char::to_ascii_uppercase`, as a code point.
pub open spec fn ascii_upper(c: char) -> u32 {
    if is_ascii_lower(c) {
        ((c as u32) - 32) as u32
    } else {
        c as u32
    }
}

/// Removes leading whitespace.
pub open spec fn trim_start(s: Seq<char>) -> Seq<char>
    decreases s.len(),
{
    if s.len() > 0 && is_whitespace(s[0]) {
        trim_start(s.drop_first())
    } else {
        s
    }
}

/// Removes trailing whitespace.
pub open spec fn trim_end(s: Seq<char>) -> Seq<char>
    decreases s.len(),
{
    if s.len() > 0 && is_whitespace(s.last()) {
        trim_end(s.drop_last())
    } else {
        s
    }
}

/// `str::trim`: removes leading and trailing whitespace.
pub open spec fn trim(s: Seq<char>) -> Seq<char> {
    trim_end(trim_start(s))
}

pub fn char_is_whitespace(c: char) -> (r: bool)
    ensures
        r == is_whitespace(c),
{
    let u = c as u32;
    (0x09 <= u && u <= 0x0D) || u == 0x20 || u == 0x85 || u == 0xA0 || u == 0x1680 || (0x2000
        <= u && u <= 0x200A) || u == 0x2028 || u == 0x2029 || u == 0x202F || u == 0x205F || u
        == 0x3000
}

proof fn lemma_trim_start_skip(s: Seq<char>, a: int)
    requires
        0 <= a <= s.len(),
        forall|k: int| 0 <= k < a ==> is_whitespace(#[trigger] s[k]),
        a == s.len() || !is_whitespace(s[a]),
    ensures
        trim_start(s) == s.skip(a),
    decreases a,
{
    if a == 0 {
        assert(s.skip(0) =~= s);
    } else {
        let t = s.drop_first();
        assert forall|k: int| 0 <= k < a - 1 implies is_whitespace(#[trigger] t[k]) by {
            assert(t[k] == s[k + 1]);
        }
        if a - 1 < t.len() {
            assert(t[a - 1] == s[a]);
        }
        lemma_trim_start_skip(t, a - 1);
        assert(t.skip(a - 1) =~= s.skip(a));
    }
}

proof fn lemma_trim_end_take(s: Seq<char>, b: int)
    requires
        0 <= b <= s.len(),
        forall|k: int| b <= k < s.len() ==> is_whitespace(#[trigger] s[k]),
        b == 0 || !is_whitespace(s[b - 1]),
    ensures
        trim_end(s) == s.take(b),
    decreases s.len() - b,
{
    if b == s.len() {
        assert(s.take(b) =~= s);
    } else {
        let t = s.drop_last();
        assert forall|k: int| b <= k < t.len() implies is_whitespace(#[trigger] t[k]) by {
            assert(t[k] == s[k]);
        }
        if b > 0 {
            assert(t[b - 1] == s[b - 1]);
        }
        lemma_trim_end_take(t, b);
        assert(t.take(b) =~= s.take(b));
    }
}

/// `a` and `b` differ at most in the case of ASCII letters.
pub open spec fn same_up_to_case(a: Seq<char>, b: Seq<char>) -> bool {
    &&& a.len() == b.len()
    &&& forall|i: int| 0 <= i < a.len() ==> ascii_upper(#[trigger] a[i]) == ascii_upper(b[i])
}

/// Two characters with the same upper case are equal or are both ASCII letters.
pub proof fn lemma_same_upper(a: char, b: char)
    requires
        ascii_upper(a) == ascii_upper(b),
    ensures
        a == b || (is_ascii_alphabetic(a) && is_ascii_alphabetic(b)),
        is_whitespace(a) == is_whitespace(b),
{
}

proof fn lemma_same_case_drop_first(a: Seq<char>, b: Seq<char>)
    requires
        same_up_to_case(a, b),
        a.len() > 0,
    ensures
        same_up_to_case(a.drop_first(), b.drop_first()),
{
    assert forall|i: int| 0 <= i < a.len() - 1 implies ascii_upper(#[trigger] a.drop_first()[i])
        == ascii_upper(b.drop_first()[i]) by {
        assert(ascii_upper(a[i + 1]) == ascii_upper(b[i + 1]));
    }
}

pub proof fn lemma_same_case_drop_last(a: Seq<char>, b: Seq<char>)
    requires
        same_up_to_case(a, b),
        a.len() > 0,
    ensures
        same_up_to_case(a.drop_last(), b.drop_last()),
        ascii_upper(a.last()) == ascii_upper(b.last()),
{
    assert forall|i: int| 0 <= i < a.len() - 1 implies ascii_upper(#[trigger] a.drop_last()[i])
        == ascii_upper(b.drop_last()[i]) by {
        assert(ascii_upper(a[i]) == ascii_upper(b[i]));
    }
    assert(ascii_upper(a[a.len() - 1]) == ascii_upper(b[a.len() - 1]));
}

/// Trimming keeps two texts that differ only in letter case aligned.
pub proof fn lemma_trim_same_case(a: Seq<char>, b: Seq<char>)
    requires
        same_up_to_case(a, b),
    ensures
        same_up_to_case(trim(a), trim(b)),
{
    lemma_trim_start_same_case(a, b);
    lemma_trim_end_same_case(trim_start(a), trim_start(b));
}

proof fn lemma_trim_start_same_case(a: Seq<char>, b: Seq<char>)
    requires
        same_up_to_case(a, b),
    ensures
        same_up_to_case(trim_start(a), trim_start(b)),
    decreases a.len(),
{
    if a.len() > 0 {
        assert(ascii_upper(a[0]) == ascii_upper(b[0]));
        lemma_same_upper(a[0], b[0]);
        if is_whitespace(a[0]) {
            lemma_same_case_drop_first(a, b);
            lemma_trim_start_same_case(a.drop_first(), b.drop_first());
        }
    }
}

proof fn lemma_trim_end_same_case(a: Seq<char>, b: Seq<char>)
    requires
        same_up_to_case(a, b),
    ensures
        same_up_to_case(trim_end(a), trim_end(b)),
    decreases a.len(),
{
    if a.len() > 0 {
        lemma_same_case_drop_last(a, b);
        lemma_same_upper(a.last(), b.last());
        if is_whitespace(a.last()) {
            lemma_trim_end_same_case(a.drop_last(), b.drop_last());
        }
    }
}

/// Trimming a text with a space inserted before a non-whitespace character `a[i]`: the
/// space is either trimmed away with the leading whitespace (`r.0` false), or stays
/// before the same character at index `r.1` of the trimmed text (`r.0` true).
pub proof fn lemma_trim_insert_space(a: Seq<char>, i: int) -> (r: (bool, int))
    requires
        0 <= i < a.len(),
        !is_whitespace(a[i]),
    ensures
        !r.0 ==> trim(a.insert(i, ' ')) == trim(a),
        r.0 ==> {
            &&& 0 <= r.1 < trim(a).len()
            &&& trim(a)[r.1] == a[i]
            &&& trim(a.insert(i, ' ')) == trim(a).insert(r.1, ' ')
        },
{
    let (inner, j) = lemma_trim_start_insert_space(a, i);
    if inner {
        lemma_trim_end_insert_space(trim_start(a), j);
    } else {
    }
    (inner, j)
}

proof fn lemma_trim_start_insert_space(a: Seq<char>, i: int) -> (r: (bool, int))
    requires
        0 <= i < a.len(),
        !is_whitespace(a[i]),
    ensures
        !r.0 ==> trim_start(a.insert(i, ' ')) == trim_start(a),
        r.0 ==> {
            &&& 0 <= r.1 < trim_start(a).len()
            &&& trim_start(a)[r.1] == a[i]
            &&& trim_start(a.insert(i, ' ')) == trim_start(a).insert(r.1, ' ')
        },
    decreases i,
{
    let b = a.insert(i, ' ');
    if i == 0 {
        assert(b.drop_first() =~= a);
        (false, 0)
    } else if is_whitespace(a[0]) {
        assert(b[0] == a[0]);
        assert(b.drop_first() =~= a.drop_first().insert(i - 1, ' '));
        lemma_trim_start_insert_space(a.drop_first(), i - 1)
    } else {
        assert(b[0] == a[0]);
        (true, i)
    }
}

proof fn lemma_trim_end_insert_space(a: Seq<char>, j: int)
    requires
        0 <= j < a.len(),
        !is_whitespace(a[j]),
    ensures
        j < trim_end(a).len(),
        trim_end(a)[j] == a[j],
        trim_end(a.insert(j, ' ')) == trim_end(a).insert(j, ' '),
    decreases a.len(),
{
    let b = a.insert(j, ' ');
    assert(b.last() == a.last());
    if is_whitespace(a.last()) {
        assert(j < a.len() - 1);
        assert(b.drop_last() =~= a.drop_last().insert(j, ' '));
        lemma_trim_end_insert_space(a.drop_last(), j);
    }
}

/// Trimming never lengthens a text.
pub proof fn lemma_trim_len(s: Seq<char>)
    ensures
        trim(s).len() <= s.len(),
{
    lemma_trim_start_len(s);
    lemma_trim_end_len(trim_start(s));
}

proof fn lemma_trim_start_len(s: Seq<char>)
    ensures
        trim_start(s).len() <= s.len(),
    decreases s.len(),
{
    if s.len() > 0 && is_whitespace(s[0]) {
        lemma_trim_start_len(s.drop_first());
    }
}

proof fn lemma_trim_end_len(s: Seq<char>)
    ensures
        trim_end(s).len() <= s.len(),
    decreases s.len(),
{
    if s.len() > 0 && is_whitespace(s.last()) {
        lemma_trim_end_len(s.drop_last());
    }
}

/// Bounds `(start, end)` of `trim` inside `v[lo..hi]`.
pub fn trim_bounds(v: &Vec<char>, lo: usize, hi: usize) -> (r: (usize, usize))
    requires
        lo <= hi <= v.len(),
    ensures
        lo <= r.0 <= r.1 <= hi,
        v@.subrange(r.0 as int, r.1 as int) == trim(v@.subrange(lo as int, hi as int)),
{
    let ghost s = v@.subrange(lo as int, hi as int);
    let mut a = lo;
    while a < hi && char_is_whitespace(v[a])
        invariant
            lo <= a <= hi <= v.len(),
            s == v@.subrange(lo as int, hi as int),
            forall|k: int| lo <= k < a ==> is_whitespace(#[trigger] v@[k]),
        decreases hi - a,
    {
        a = a + 1;
    }
    proof {
        assert forall|k: int| 0 <= k < a - lo implies is_whitespace(#[trigger] s[k]) by {
            assert(s[k] == v@[k + lo]);
        }
        if a < hi {
            assert(s[a - lo] == v@[a as int]);
        }
        lemma_trim_start_skip(s, a - lo);
    }
    let mut b = hi;
    while b > a && char_is_whitespace(v[b - 1])
        invariant
            lo <= a <= b <= hi <= v.len(),
            forall|k: int| b <= k < hi ==> is_whitespace(#[trigger] v@[k]),
        decreases b - a,
    {
        b = b - 1;
    }
    proof {
        let t = s.skip(a - lo);
        assert(t =~= v@.subrange(a as int, hi as int));
        assert forall|k: int| b - a <= k < t.len() implies is_whitespace(#[trigger] t[k]) by {
            assert(t[k] == v@[k + a]);
        }
        if b > a {
            assert(t[b - a - 1] == v@[b - 1]);
        }
        lemma_trim_end_take(t, b - a);
        assert(t.take(b - a) =~= v@.subrange(a as int, b as int));
    }
    (a, b)
}

/// Copies `v[lo..hi]` into a new vector.
pub fn copy_range(v: &Vec<char>, lo: usize, hi: usize) -> (r: Vec<char>)
    requires
        lo <= hi <= v.len(),
    ensures
        r@ == v@.subrange(lo as int, hi as int),
{
    let mut r: Vec<char> = Vec::new();
    let mut i = lo;
    while i < hi
        invariant
            lo <= i <= hi <= v.len(),
            r@ == v@.subrange(lo as int, i as int),
        decreases hi - i,
    {
        r.push(v[i]);
        i = i + 1;
    }
    r
}

/// The characters of a string slice, in order.
pub fn str_chars(s: &str) -> (v: Vec<char>)
    ensures
        v@ == s@,
{
    let mut v: Vec<char> = Vec::new();
    for c in it: s.chars()
        invariant
            v@ == it.seq().take(it.index() as int),
    {
        v.push(c);
    }
    proof {
        broadcast use vstd::string::group_string_axioms;

    }
    v
}

/// Builds a `String` from its characters, through `String::from_iter`.
#[verifier::external_body]
pub fn string_from_chars(v: Vec<char>) -> (s: String)
    ensures
        s@ == v@,
{
    String::from_iter(v)
}

} // verus!
