//! Character-level string work shared by the parsers and formatters: every
//! string the library builds or inspects goes through here, so each one has
//! a `Seq<char>` statement of what it holds.
use vstd::prelude::*;
use vstd::string::*;

verus! {

broadcast use vstd::seq_lib::group_seq_properties;

/// Unicode's White_Space property, the set `char::is_whitespace` tests:
/// U+0009..=U+000D, space, U+0085, U+00A0, U+1680, U+2000..=U+200A,
/// U+2028, U+2029, U+202F, U+205F and U+3000.
pub open spec fn is_white(c: char) -> bool {
    let u = c as u32;
    (0x9 <= u && u <= 0xD) || u == 0x20 || u == 0x85 || u == 0xA0 || u == 0x1680 || (0x2000 <= u && u
        <= 0x200A) || u == 0x2028 || u == 0x2029 || u == 0x202F || u == 0x205F || u == 0x3000
}

/// Whether `c` is alphabetic or numeric in Unicode's sense (`char::is_alphanumeric`).
pub uninterp spec fn is_alnum(c: char) -> bool;

/// Whether `c` is alphabetic in Unicode's sense (`char::is_alphabetic`).
pub uninterp spec fn is_alpha(c: char) -> bool;

/// Whether `c` is uppercase in Unicode's sense (`char::is_uppercase`).
pub uninterp spec fn is_upper(c: char) -> bool;

/// The full Unicode lowercase mapping of a string (`str::to_lowercase`).
pub uninterp spec fn lower(s: Seq<char>) -> Seq<char>;

/// The full Unicode uppercase mapping of a string (`str::to_uppercase`).
pub uninterp spec fn upper(s: Seq<char>) -> Seq<char>;

/// Whether `c` is whitespace in Unicode's White_Space sense.
pub fn char_is_whitespace(c: char) -> (r: bool)
    ensures
        r == is_white(c),
{
    let u = c as u32;
    (0x9 <= u && u <= 0xD) || u == 0x20 || u == 0x85 || u == 0xA0 || u == 0x1680 || (0x2000 <= u && u
        <= 0x200A) || u == 0x2028 || u == 0x2029 || u == 0x202F || u == 0x205F || u == 0x3000
}

/// A run with no whitespace in it is one word (or none, when empty).
pub proof fn lemma_words_of_unbroken(s: Seq<char>)
    requires
        forall|i: int| 0 <= i < s.len() ==> !is_white(#[trigger] s[i]),
    ensures
        split_state(s) == (Seq::<Seq<char>>::empty(), s),
        s.len() > 0 ==> words(s) == seq![s],
        s.len() == 0 ==> words(s) == Seq::<Seq<char>>::empty(),
    decreases s.len(),
{
    if s.len() > 0 {
        lemma_words_of_unbroken(s.drop_last());
        assert(s.drop_last().push(s.last()) =~= s);
    } else {
        assert(s =~= Seq::<char>::empty());
    }
}

/// `char::is_alphanumeric`: alphabetic or numeric, which `is_alnum` names.
/// Among ASCII chars exactly the letters and digits are.
#[verifier::external_body]
pub fn char_is_alphanumeric(c: char) -> (r: bool)
    ensures
        r == is_alnum(c),
        (c as u32) < 128 ==> r == (('a' <= c && c <= 'z') || ('A' <= c && c <= 'Z') || ('0' <= c && c <= '9')),
{
    c.is_alphanumeric()
}

/// `char::is_alphabetic`: the Alphabetic property, which `is_alpha` names.
/// Among ASCII chars exactly the letters have it.
#[verifier::external_body]
pub fn char_is_alphabetic(c: char) -> (r: bool)
    ensures
        r == is_alpha(c),
        (c as u32) < 128 ==> r == (('a' <= c && c <= 'z') || ('A' <= c && c <= 'Z')),
{
    c.is_alphabetic()
}

/// `char::is_uppercase`: the Uppercase property, which `is_upper` names.
/// Among ASCII chars exactly `A` to `Z` have it.
#[verifier::external_body]
pub fn char_is_uppercase(c: char) -> (r: bool)
    ensures
        r == is_upper(c),
        (c as u32) < 128 ==> r == ('A' <= c && c <= 'Z'),
{
    c.is_uppercase()
}

/// `str::to_lowercase`: the Unicode lowercase of the whole string, named
/// `lower`. On an ASCII string the Unicode lowercase is the ASCII one: `A`
/// to `Z` become `a` to `z` and every other ASCII char stays.
#[verifier::external_body]
pub fn str_to_lowercase(s: &str) -> (r: String)
    ensures
        r@ == lower(s@),
        all_ascii(s@) ==> r@ == lower_ascii_seq(s@),
{
    s.to_lowercase()
}

/// `str::to_uppercase`: the Unicode uppercase of the whole string, named
/// `upper`. On an ASCII string it is the ASCII uppercase: `a` to `z` become
/// `A` to `Z` and every other ASCII char stays.
#[verifier::external_body]
pub fn str_to_uppercase(s: &str) -> (r: String)
    ensures
        r@ == upper(s@),
        all_ascii(s@) ==> r@ == upper_ascii_seq(s@),
{
    s.to_uppercase()
}

/// `String::push`: appends one char at the end.
#[verifier::external_body]
pub fn push_char(s: &mut String, c: char)
    ensures
        final(s)@ == old(s)@.push(c),
{
    s.push(c);
}

/// The chars of a string slice, in order.
pub fn chars_of(s: &str) -> (v: Vec<char>)
    ensures
        v@ == s@,
{
    let mut v: Vec<char> = Vec::new();
    for c in it: s.chars()
        invariant
            v@ == it.seq().take(it.index() as int),
    {
        v.push(c);
    }
    v
}

/// A string holding exactly `v`'s chars.
pub fn string_of(v: &Vec<char>) -> (s: String)
    ensures
        s@ == v@,
{
    let mut s = String::new();
    let mut i: usize = 0;
    while i < v.len()
        invariant
            i <= v.len(),
            s@ == v@.take(i as int),
        decreases v.len() - i,
    {
        push_char(&mut s, v[i]);
        assert(v@.take(i as int).push(v@[i as int]) =~= v@.take(i + 1));
        i += 1;
    }
    assert(v@.take(v.len() as int) =~= v@);
    s
}

/// An owned copy of a string slice.
pub fn owned(s: &str) -> (r: String)
    ensures
        r@ == s@,
{
    String::from_str(s)
}

/// Appends `t` to `s`.
pub fn append(s: &mut String, t: &str)
    ensures
        final(s)@ == old(s)@ + t@,
{
    s.append(t);
}

/// Element-wise equality of two char vectors.
pub fn chars_eq(a: &Vec<char>, b: &Vec<char>) -> (r: bool)
    ensures
        r == (a@ == b@),
{
    if a.len() != b.len() {
        return false;
    }
    let mut i: usize = 0;
    while i < a.len()
        invariant
            i <= a.len(),
            a.len() == b.len(),
            forall|j: int| 0 <= j < i ==> a@[j] == b@[j],
        decreases a.len() - i,
    {
        if a[i] != b[i] {
            return false;
        }
        i += 1;
    }
    assert(a@ =~= b@);
    true
}

/// Equality of two string slices by their chars.
pub fn str_eq(a: &str, b: &str) -> (r: bool)
    ensures
        r == (a@ == b@),
{
    chars_eq(&chars_of(a), &chars_of(b))
}

/// Whether `p` is a prefix of `s`.
pub fn starts_with(s: &Vec<char>, p: &Vec<char>) -> (r: bool)
    ensures
        r == p@.is_prefix_of(s@),
{
    if p.len() > s.len() {
        return false;
    }
    let mut i: usize = 0;
    while i < p.len()
        invariant
            i <= p.len(),
            p.len() <= s.len(),
            forall|j: int| 0 <= j < i ==> p@[j] == s@[j],
        decreases p.len() - i,
    {
        if p[i] != s[i] {
            return false;
        }
        i += 1;
    }
    true
}

/// ASCII-only lowercasing of one char: `A`..=`Z` move down, everything else
/// stays (`char::to_ascii_lowercase`).
pub open spec fn lower_ascii(c: char) -> char {
    if 'A' <= c && c <= 'Z' {
        ((c as u32) + 32) as char
    } else {
        c
    }
}

/// ASCII-only uppercasing of one char (`char::to_ascii_uppercase`).
pub open spec fn upper_ascii(c: char) -> char {
    if 'a' <= c && c <= 'z' {
        ((c as u32) - 32) as char
    } else {
        c
    }
}

/// Every char is ASCII.
pub open spec fn all_ascii(s: Seq<char>) -> bool {
    forall|i: int| 0 <= i < s.len() ==> (#[trigger] s[i] as u32) < 128
}

/// `str::to_ascii_uppercase` over a sequence.
pub open spec fn upper_ascii_seq(s: Seq<char>) -> Seq<char> {
    s.map_values(|c: char| upper_ascii(c))
}

/// `str::to_ascii_lowercase` over a sequence.
pub open spec fn lower_ascii_seq(s: Seq<char>) -> Seq<char> {
    s.map_values(|c: char| lower_ascii(c))
}

pub fn char_lower_ascii(c: char) -> (r: char)
    ensures
        r == lower_ascii(c),
{
    if 'A' <= c && c <= 'Z' {
        let u: u8 = (c as u8) + 32;
        u as char
    } else {
        c
    }
}

/// ASCII lowercase of every char.
pub fn lower_ascii_chars(v: &Vec<char>) -> (r: Vec<char>)
    ensures
        r@ == lower_ascii_seq(v@),
{
    let mut r: Vec<char> = Vec::new();
    let mut i: usize = 0;
    while i < v.len()
        invariant
            i <= v.len(),
            r@ == lower_ascii_seq(v@.take(i as int)),
        decreases v.len() - i,
    {
        r.push(char_lower_ascii(v[i]));
        assert(lower_ascii_seq(v@.take(i + 1)) =~= lower_ascii_seq(v@.take(i as int)).push(
            lower_ascii(v@[i as int]),
        ));
        i += 1;
    }
    assert(v@.take(v.len() as int) =~= v@);
    r
}

/// The decimal digit `d` (0..=9) as a char.
pub open spec fn digit(d: nat) -> char {
    ((d + 48) as u8) as char
}

/// The decimal spelling of `n`, no sign, no leading zeros.
pub open spec fn dec(n: nat) -> Seq<char>
    decreases n,
{
    if n < 10 {
        seq![digit(n)]
    } else {
        dec(n / 10).push(digit(n % 10))
    }
}

fn dec_chars(n: u64) -> (r: Vec<char>)
    ensures
        r@ == dec(n as nat),
    decreases n,
{
    if n < 10 {
        let c: char = ((n as u8) + 48) as char;
        let mut v: Vec<char> = Vec::new();
        v.push(c);
        v
    } else {
        let mut v = dec_chars(n / 10);
        let d: u8 = (n % 10) as u8;
        v.push((d + 48) as char);
        v
    }
}

/// `n` written in decimal (`u64`'s `Display`).
pub fn dec_string(n: u64) -> (s: String)
    ensures
        s@ == dec(n as nat),
{
    string_of(&dec_chars(n))
}

/// `s` with `n` appended in decimal.
pub fn append_dec(s: &mut String, n: u64)
    ensures
        final(s)@ == old(s)@ + dec(n as nat),
{
    let v = dec_chars(n);
    let mut i: usize = 0;
    let ghost start = s@;
    while i < v.len()
        invariant
            i <= v.len(),
            s@ == start + v@.take(i as int),
        decreases v.len() - i,
    {
        push_char(s, v[i]);
        assert(v@.take(i as int).push(v@[i as int]) =~= v@.take(i + 1));
        i += 1;
    }
    assert(v@.take(v.len() as int) =~= v@);
}

/// One step of splitting on whitespace: the words closed so far and the
/// word being read.
pub open spec fn split_step(st: (Seq<Seq<char>>, Seq<char>), c: char) -> (Seq<Seq<char>>, Seq<char>) {
    if is_white(c) {
        if st.1.len() > 0 {
            (st.0.push(st.1), Seq::empty())
        } else {
            (st.0, Seq::empty())
        }
    } else {
        (st.0, st.1.push(c))
    }
}

pub open spec fn split_state(s: Seq<char>) -> (Seq<Seq<char>>, Seq<char>)
    decreases s.len(),
{
    if s.len() == 0 {
        (Seq::empty(), Seq::empty())
    } else {
        split_step(split_state(s.drop_last()), s.last())
    }
}

/// `str::split_whitespace`: the maximal runs of non-whitespace chars, in order.
pub open spec fn words(s: Seq<char>) -> Seq<Seq<char>> {
    let st = split_state(s);
    if st.1.len() > 0 {
        st.0.push(st.1)
    } else {
        st.0
    }
}

/// The views of a vector of char vectors.
pub open spec fn views(v: Seq<Vec<char>>) -> Seq<Seq<char>> {
    v.map_values(|w: Vec<char>| w@)
}

/// Splits `v` into its whitespace-separated words.
pub fn split_ws(v: &Vec<char>) -> (r: Vec<Vec<char>>)
    ensures
        views(r@) == words(v@),
        forall|k: int| 0 <= k < r@.len() ==> r@[k]@.len() > 0,
{
    let mut out: Vec<Vec<char>> = Vec::new();
    let mut cur: Vec<char> = Vec::new();
    let mut i: usize = 0;
    while i < v.len()
        invariant
            i <= v.len(),
            (views(out@), cur@) == split_state(v@.take(i as int)),
            forall|k: int| 0 <= k < out@.len() ==> out@[k]@.len() > 0,
        decreases v.len() - i,
    {
        let c = v[i];
        assert(v@.take(i + 1).drop_last() =~= v@.take(i as int));
        if char_is_whitespace(c) {
            if cur.len() > 0 {
                let w = cur;
                cur = Vec::new();
                out.push(w);
                assert(views(out@) =~= split_state(v@.take(i as int)).0.push(w@));
            }
        } else {
            cur.push(c);
        }
        i += 1;
    }
    assert(v@.take(v.len() as int) =~= v@);
    if cur.len() > 0 {
        out.push(cur);
        assert(views(out@) =~= split_state(v@).0.push(split_state(v@).1));
    }
    out
}

/// `parts` joined with `sep` between each neighbour.
pub open spec fn join(parts: Seq<Seq<char>>, sep: Seq<char>) -> Seq<char>
    decreases parts.len(),
{
    if parts.len() == 0 {
        Seq::empty()
    } else if parts.len() == 1 {
        parts[0]
    } else {
        join(parts.drop_last(), sep) + sep + parts.last()
    }
}

/// Leading whitespace removed (`str::trim_start`).
pub open spec fn ltrim(s: Seq<char>) -> Seq<char>
    decreases s.len(),
{
    if s.len() > 0 && is_white(s[0]) {
        ltrim(s.drop_first())
    } else {
        s
    }
}

/// Trailing whitespace removed (`str::trim_end`).
pub open spec fn rtrim(s: Seq<char>) -> Seq<char>
    decreases s.len(),
{
    if s.len() > 0 && is_white(s.last()) {
        rtrim(s.drop_last())
    } else {
        s
    }
}

/// Whitespace removed from both ends (`str::trim`).
pub open spec fn trim(s: Seq<char>) -> Seq<char> {
    rtrim(ltrim(s))
}

proof fn lemma_ltrim_skip(s: Seq<char>, i: int)
    requires
        0 <= i <= s.len(),
        forall|j: int| 0 <= j < i ==> is_white(s[j]),
    ensures
        ltrim(s) == ltrim(s.skip(i)),
    decreases i,
{
    if i > 0 {
        lemma_ltrim_skip(s, i - 1);
        assert(s.skip(i - 1).drop_first() =~= s.skip(i));
    } else {
        assert(s.skip(0) =~= s);
    }
}

proof fn lemma_rtrim_take(s: Seq<char>, k: int)
    requires
        0 <= k <= s.len(),
        forall|j: int| k <= j < s.len() ==> is_white(s[j]),
    ensures
        rtrim(s) == rtrim(s.take(k)),
    decreases s.len() - k,
{
    if k < s.len() {
        lemma_rtrim_take(s, k + 1);
        assert(s.take(k + 1).drop_last() =~= s.take(k));
    } else {
        assert(s.take(k) =~= s);
    }
}

/// The bounds `[a, b)` of `v[lo..hi]` with whitespace trimmed off both ends.
pub fn trim_bounds(v: &Vec<char>, lo: usize, hi: usize) -> (r: (usize, usize))
    requires
        lo <= hi <= v.len(),
    ensures
        lo <= r.0 <= r.1 <= hi,
        v@.subrange(r.0 as int, r.1 as int) == trim(v@.subrange(lo as int, hi as int)),
        ltrim(v@.subrange(lo as int, hi as int)) == v@.subrange(r.0 as int, hi as int),
{
    let ghost s = v@.subrange(lo as int, hi as int);
    let mut a = lo;
    while a < hi && char_is_whitespace(v[a])
        invariant
            lo <= a <= hi,
            hi <= v.len(),
            s == v@.subrange(lo as int, hi as int),
            forall|j: int| 0 <= j < a - lo ==> is_white(s[j]),
        decreases hi - a,
    {
        a += 1;
    }
    proof {
        lemma_ltrim_skip(s, a - lo);
        assert(s.skip(a - lo) =~= v@.subrange(a as int, hi as int));
    }
    let ghost t = v@.subrange(a as int, hi as int);
    let mut b = hi;
    while b > a && char_is_whitespace(v[b - 1])
        invariant
            a <= b <= hi,
            hi <= v.len(),
            t == v@.subrange(a as int, hi as int),
            forall|j: int| b - a <= j < t.len() ==> is_white(t[j]),
        decreases b - a,
    {
        b -= 1;
    }
    proof {
        lemma_rtrim_take(t, b - a);
        assert(t.take(b - a) =~= v@.subrange(a as int, b as int));
    }
    (a, b)
}

/// `v[a..b]` as its own vector.
pub fn slice_chars(v: &Vec<char>, a: usize, b: usize) -> (r: Vec<char>)
    requires
        a <= b <= v.len(),
    ensures
        r@ == v@.subrange(a as int, b as int),
{
    let mut r: Vec<char> = Vec::new();
    let mut i = a;
    while i < b
        invariant
            a <= i <= b,
            b <= v.len(),
            r@ == v@.subrange(a as int, i as int),
        decreases b - i,
    {
        r.push(v[i]);
        assert(v@.subrange(a as int, i + 1) =~= v@.subrange(a as int, i as int).push(v@[i as int]));
        i += 1;
    }
    r
}

/// The run of non-whitespace chars `s` starts with.
pub open spec fn lead_word(s: Seq<char>) -> Seq<char>
    decreases s.len(),
{
    if s.len() == 0 || is_white(s[0]) {
        Seq::empty()
    } else {
        seq![s[0]] + lead_word(s.drop_first())
    }
}

pub proof fn lemma_lead_word(s: Seq<char>, j: int)
    requires
        0 <= j <= s.len(),
        forall|i: int| 0 <= i < j ==> !is_white(s[i]),
        j == s.len() || is_white(s[j]),
    ensures
        lead_word(s) == s.take(j),
    decreases j,
{
    if j > 0 {
        lemma_lead_word(s.drop_first(), j - 1);
        assert(seq![s[0]] + s.drop_first().take(j - 1) =~= s.take(j));
    } else {
        assert(s.take(0) =~= Seq::<char>::empty());
    }
}

/// The end of the non-whitespace run that starts at `a` within `v[a..b]`.
pub fn lead_word_end(v: &Vec<char>, a: usize, b: usize) -> (j: usize)
    requires
        a <= b <= v.len(),
    ensures
        a <= j <= b,
        lead_word(v@.subrange(a as int, b as int)) == v@.subrange(a as int, j as int),
{
    let mut j = a;
    while j < b && !char_is_whitespace(v[j])
        invariant
            a <= j <= b,
            b <= v.len(),
            forall|i: int| a <= i < j ==> !is_white(v@[i]),
        decreases b - j,
    {
        j += 1;
    }
    proof {
        let s = v@.subrange(a as int, b as int);
        lemma_lead_word(s, j - a);
        assert(s.take(j - a) =~= v@.subrange(a as int, j as int));
    }
    j
}

/// The views of a vector of strings.
pub open spec fn string_views(v: Seq<String>) -> Seq<Seq<char>> {
    v.map_values(|s: String| s@)
}

/// `parts.join(sep)`.
pub fn join_strings(parts: &Vec<String>, sep: &str) -> (r: String)
    ensures
        r@ == join(string_views(parts@), sep@),
{
    let ghost ps = string_views(parts@);
    let mut out = String::new();
    let mut i: usize = 0;
    while i < parts.len()
        invariant
            i <= parts.len(),
            ps == string_views(parts@),
            out@ == join(ps.take(i as int), sep@),
        decreases parts.len() - i,
    {
        proof {
            assert(ps.take(i + 1).drop_last() =~= ps.take(i as int));
            if i == 0 {
                assert(ps.take(1) =~= seq![ps[0]]);
            }
        }
        if i > 0 {
            append(&mut out, sep);
        }
        append(&mut out, parts[i].as_str());
        i += 1;
    }
    proof {
        assert(ps.take(parts.len() as int) =~= ps);
    }
    out
}

/// The `{:?}` form of a string: quoted, with Rust's escapes.
pub uninterp spec fn debug_quoted(s: Seq<char>) -> Seq<char>;

/// `<str as Debug>::fmt`, as a string: the quoted, escaped form of `s`.
#[verifier::external_body]
pub fn debug_str(s: &str) -> (r: String)
    ensures
        r@ == debug_quoted(s@),
{
    format!("{s:?}")
}

pub proof fn lemma_upper_keeps_white(c: char)
    ensures
        is_white(upper_ascii(c)) == is_white(c),
        lower_ascii(upper_ascii(c)) == lower_ascii(c),
{
    if 'a' <= c && c <= 'z' {
        assert(((c as u32) - 32) as char as u32 == (c as u32) - 32);
    }
}

/// Splitting an ASCII-uppercased line gives the uppercased words of the
/// line: uppercasing turns no char into whitespace or out of it.
pub proof fn lemma_split_upper(s: Seq<char>)
    ensures
        split_state(upper_ascii_seq(s)) == (
            split_state(s).0.map_values(|w: Seq<char>| upper_ascii_seq(w)),
            upper_ascii_seq(split_state(s).1),
        ),
    decreases s.len(),
{
    if s.len() > 0 {
        let u = upper_ascii_seq(s);
        assert(u.drop_last() =~= upper_ascii_seq(s.drop_last()));
        lemma_split_upper(s.drop_last());
        let c = s.last();
        lemma_upper_keeps_white(c);
        let st = split_state(s.drop_last());
        let f = |w: Seq<char>| upper_ascii_seq(w);
        assert(upper_ascii_seq(st.1.push(c)) =~= upper_ascii_seq(st.1).push(upper_ascii(c)));
        assert(st.0.push(st.1).map_values(f) =~= st.0.map_values(f).push(upper_ascii_seq(st.1)));
        assert(upper_ascii_seq(Seq::<char>::empty()) =~= Seq::<char>::empty());
    } else {
        assert(upper_ascii_seq(s) =~= Seq::<char>::empty());
        assert(Seq::<Seq<char>>::empty().map_values(|w: Seq<char>| upper_ascii_seq(w)) =~= Seq::<Seq<char>>::empty());
    }
}

/// The words of an ASCII-uppercased line are the line's words, uppercased.
pub proof fn lemma_words_upper(s: Seq<char>)
    ensures
        words(upper_ascii_seq(s)) == words(s).map_values(|w: Seq<char>| upper_ascii_seq(w)),
{
    lemma_split_upper(s);
    let st = split_state(s);
    let f = |w: Seq<char>| upper_ascii_seq(w);
    assert(st.0.push(st.1).map_values(f) =~= st.0.map_values(f).push(upper_ascii_seq(st.1)));
}

/// ASCII lowercasing undoes ASCII uppercasing.
pub proof fn lemma_lower_of_upper(w: Seq<char>)
    ensures
        lower_ascii_seq(upper_ascii_seq(w)) == lower_ascii_seq(w),
{
    assert forall|i: int| 0 <= i < w.len() implies lower_ascii(upper_ascii(#[trigger] w[i])) == lower_ascii(w[i]) by {
        lemma_upper_keeps_white(w[i]);
    }
    assert(lower_ascii_seq(upper_ascii_seq(w)) =~= lower_ascii_seq(w));
}

proof fn lemma_split_ascii(s: Seq<char>)
    requires
        all_ascii(s),
    ensures
        forall|k: int| 0 <= k < split_state(s).0.len() ==> all_ascii(#[trigger] split_state(s).0[k]),
        all_ascii(split_state(s).1),
    decreases s.len(),
{
    if s.len() > 0 {
        assert(all_ascii(s.drop_last())) by {
            assert forall|i: int| 0 <= i < s.drop_last().len() implies (#[trigger] s.drop_last()[i] as u32) < 128 by {
                assert(s.drop_last()[i] == s[i]);
            }
        }
        lemma_split_ascii(s.drop_last());
        let st = split_state(s.drop_last());
        let c = s.last();
        assert((s[s.len() - 1] as u32) < 128);
        assert forall|i: int| 0 <= i < st.1.push(c).len() implies (#[trigger] st.1.push(c)[i] as u32) < 128 by {
            if i < st.1.len() {
                assert(st.1.push(c)[i] == st.1[i]);
            }
        }
        assert forall|k: int| 0 <= k < st.0.push(st.1).len() implies all_ascii(#[trigger] st.0.push(st.1)[k]) by {
            if k < st.0.len() {
                assert(st.0.push(st.1)[k] == st.0[k]);
            }
        }
    }
}

/// The words of an ASCII line are ASCII.
pub proof fn lemma_words_ascii(s: Seq<char>)
    requires
        all_ascii(s),
    ensures
        forall|k: int| 0 <= k < words(s).len() ==> all_ascii(#[trigger] words(s)[k]),
{
    lemma_split_ascii(s);
    let st = split_state(s);
    assert forall|k: int| 0 <= k < st.0.push(st.1).len() implies all_ascii(#[trigger] st.0.push(st.1)[k]) by {
        if k < st.0.len() {
            assert(st.0.push(st.1)[k] == st.0[k]);
        }
    }
}

proof fn lemma_split_lead_space(n: Seq<char>)
    ensures
        split_state(seq![' '] + n) == split_state(n),
    decreases n.len(),
{
    if n.len() > 0 {
        assert((seq![' '] + n).drop_last() =~= seq![' '] + n.drop_last());
        assert((seq![' '] + n).last() == n.last());
        lemma_split_lead_space(n.drop_last());
    } else {
        assert(seq![' '] + n =~= seq![' ']);
        assert(seq![' '].drop_last() =~= Seq::<char>::empty());
        assert(is_white(' '));
    }
}

/// A run with no whitespace, padded by one space on each side, is one word.
pub proof fn lemma_words_of_padded(n: Seq<char>)
    requires
        n.len() > 0,
        forall|i: int| 0 <= i < n.len() ==> !is_white(#[trigger] n[i]),
    ensures
        words(seq![' '] + n + seq![' ']) == seq![n],
{
    let p = seq![' '] + n;
    assert(seq![' '] + n + seq![' '] =~= p.push(' '));
    assert(p.push(' ').drop_last() =~= p);
    lemma_split_lead_space(n);
    lemma_words_of_unbroken(n);
    assert(is_white(' '));
}

} // verus!
