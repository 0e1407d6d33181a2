//! Character-sequence helpers shared by the whole library.
//!
//! Strings are handled as `Vec<char>` inside the library; their model is the
//! `Seq<char>` view. The spec functions here describe the `str` methods the
//! launcher relies on (`split`, `rsplit`, `starts_with`, `contains`, `trim`,
//! `join`, ...), and the executable functions are proved against them.
use vstd::prelude::*;

verus! {

// ---------------------------------------------------------------------------
// Conversions with std strings
// ---------------------------------------------------------------------------

/// Collects the characters of a string slice, in order.
pub(crate) fn chars_of(s: &str) -> (v: Vec<char>)
    ensures
        v@ == s@,
{
    broadcast use vstd::string::axiom_spec_iter;
    let mut v: Vec<char> = Vec::new();
    for c in it: s.chars()
        invariant
            v@ == it.seq().take(it.index() as int),
    {
        v.push(c);
    }
    v
}

/// Builds a `String` from characters (`FromIterator<char>` for `String`).
/// Claimed: the string holds exactly the given characters, in order.
#[verifier::external_body]
pub(crate) fn string_of(v: &[char]) -> (s: String)
    ensures
        s@ == v@,
{
    v.iter().collect()
}

// ---------------------------------------------------------------------------
// Specifications
// ---------------------------------------------------------------------------

/// `s.starts_with(p)`
pub open spec fn starts_with(s: Seq<char>, p: Seq<char>) -> bool {
    p.len() <= s.len() && s.subrange(0, p.len() as int) == p
}

/// `s.ends_with(p)`
pub open spec fn ends_with(s: Seq<char>, p: Seq<char>) -> bool {
    p.len() <= s.len() && s.subrange(s.len() - p.len(), s.len() as int) == p
}

/// `p` occurs in `s` at position `i`.
pub open spec fn occurs_at(s: Seq<char>, p: Seq<char>, i: int) -> bool {
    0 <= i && i + p.len() <= s.len() && s.subrange(i, i + p.len()) == p
}

/// `s.contains(p)` for a string pattern.
pub open spec fn contains_str(s: Seq<char>, p: Seq<char>) -> bool {
    exists|i: int| occurs_at(s, p, i)
}

/// Index of the first `c` in `s`, or `s.len()` when there is none.
pub open spec fn first_index_of(s: Seq<char>, c: char) -> nat
    decreases s.len(),
{
    if s.len() == 0 {
        0
    } else if s[0] == c {
        0
    } else {
        1 + first_index_of(s.drop_first(), c)
    }
}

/// Position just after the last `c` in `s`, or `0` when there is none.
pub open spec fn last_sep_end(s: Seq<char>, c: char) -> nat
    decreases s.len(),
{
    if s.len() == 0 {
        0
    } else if s.last() == c {
        s.len()
    } else {
        last_sep_end(s.drop_last(), c)
    }
}

/// `s.split(c).next()`: the text before the first `c`.
pub open spec fn before_first(s: Seq<char>, c: char) -> Seq<char> {
    s.take(first_index_of(s, c) as int)
}

/// `s.rsplit(c).next()`: the text after the last `c`.
pub open spec fn after_last(s: Seq<char>, c: char) -> Seq<char> {
    s.skip(last_sep_end(s, c) as int)
}

/// `s.split(c)` collected: `n + 1` pieces for `n` occurrences of `c`.
pub open spec fn split(s: Seq<char>, c: char) -> Seq<Seq<char>>
    decreases s.len(),
{
    if s.len() == 0 {
        seq![Seq::<char>::empty()]
    } else {
        let init = split(s.drop_last(), c);
        if s.last() == c {
            init.push(Seq::<char>::empty())
        } else {
            init.update(init.len() - 1, init.last().push(s.last()))
        }
    }
}

/// The character views of a list of character vectors.
pub open spec fn views(v: Seq<Vec<char>>) -> Seq<Seq<char>> {
    v.map_values(|x: Vec<char>| x@)
}

/// `parts.join(sep)`
pub open spec fn join(parts: Seq<Seq<char>>, sep: Seq<char>) -> Seq<char>
    decreases parts.len(),
{
    if parts.len() == 0 {
        Seq::<char>::empty()
    } else if parts.len() == 1 {
        parts[0]
    } else {
        join(parts.drop_last(), sep) + sep + parts.last()
    }
}

/// Every character `a` of `s` replaced by `b` (`str::replace` with chars).
pub open spec fn replace_char(s: Seq<char>, a: char, b: char) -> Seq<char> {
    s.map_values(|x: char| if x == a { b } else { x })
}

/// `char::to_ascii_lowercase`
pub open spec fn ascii_lower(c: char) -> char {
    if 'A' <= c && c <= 'Z' {
        ((c as u32) + 32) as char
    } else {
        c
    }
}

/// `str::to_ascii_lowercase`
pub open spec fn ascii_lowercase(s: Seq<char>) -> Seq<char> {
    s.map_values(|x: char| ascii_lower(x))
}

/// `str::eq_ignore_ascii_case`
pub open spec fn eq_ignore_ascii_case(a: Seq<char>, b: Seq<char>) -> bool {
    ascii_lowercase(a) == ascii_lowercase(b)
}

// ---------------------------------------------------------------------------
// Lemmas
// ---------------------------------------------------------------------------

/// Characterises `first_index_of` by the position it returns.
pub proof fn lemma_first_index_of(s: Seq<char>, c: char, i: int)
    requires
        0 <= i <= s.len(),
        forall|j: int| 0 <= j < i ==> s[j] != c,
        i == s.len() || s[i] == c,
    ensures
        first_index_of(s, c) == i,
    decreases s.len(),
{
    if s.len() > 0 && i > 0 {
        assert forall|j: int| 0 <= j < i - 1 implies s.drop_first()[j] != c by {
            assert(s.drop_first()[j] == s[j + 1]);
        }
        lemma_first_index_of(s.drop_first(), c, i - 1);
    }
}

/// Characterises `last_sep_end` by the position it returns.
pub proof fn lemma_last_sep_end(s: Seq<char>, c: char, k: int)
    requires
        0 <= k <= s.len(),
        k == 0 || s[k - 1] == c,
        forall|j: int| k <= j < s.len() ==> s[j] != c,
    ensures
        last_sep_end(s, c) == k,
    decreases s.len(),
{
    if s.len() > 0 && k < s.len() {
        lemma_last_sep_end(s.drop_last(), c, k);
    }
}

/// `split` never yields an empty list of pieces.
pub proof fn lemma_split_nonempty(s: Seq<char>, c: char)
    ensures
        split(s, c).len() >= 1,
    decreases s.len(),
{
    if s.len() > 0 {
        lemma_split_nonempty(s.drop_last(), c);
    }
}

/// Joining one more piece.
pub proof fn lemma_join_push(parts: Seq<Seq<char>>, sep: Seq<char>, p: Seq<char>)
    ensures
        join(parts.push(p), sep) == if parts.len() == 0 {
            p
        } else {
            join(parts, sep) + sep + p
        },
{
    assert(parts.push(p).drop_last() =~= parts);
}

// ---------------------------------------------------------------------------
// Executable functions
// ---------------------------------------------------------------------------

/// Equality of two character sequences.
pub fn chars_eq(a: &[char], b: &[char]) -> (r: bool)
    ensures
        r == (a@ == b@),
{
    if a.len() != b.len() {
        return false;
    }
    let mut i: usize = 0;
    while i < a.len()
        invariant
            a@.len() == b@.len(),
            i <= a@.len(),
            forall|j: int| 0 <= j < i ==> a@[j] == b@[j],
        decreases a@.len() - i,
    {
        if a[i] != b[i] {
            return false;
        }
        i = i + 1;
    }
    assert(a@ =~= b@);
    true
}

/// Whether `p` occurs in `s` at position `i`.
pub fn occurs_at_exec(s: &[char], p: &[char], i: usize) -> (r: bool)
    ensures
        r == occurs_at(s@, p@, i as int),
{
    if i > s.len() || p.len() > s.len() - i {
        return false;
    }
    let mut k: usize = 0;
    while k < p.len()
        invariant
            s@.len() == s.len(),
            i + p@.len() <= s@.len(),
            k <= p@.len(),
            forall|j: int| 0 <= j < k ==> s@[i + j] == p@[j],
        decreases p@.len() - k,
    {
        if s[i + k] != p[k] {
            assert(s@.subrange(i as int, i + p@.len())[k as int] != p@[k as int]);
            return false;
        }
        k = k + 1;
    }
    assert(s@.subrange(i as int, i + p@.len()) =~= p@);
    true
}

/// `s.starts_with(p)`
pub fn starts_with_chars(s: &[char], p: &[char]) -> (r: bool)
    ensures
        r == starts_with(s@, p@),
{
    occurs_at_exec(s, p, 0)
}

/// `s.starts_with(lit)`
pub fn starts_with_lit(s: &[char], lit: &str) -> (r: bool)
    ensures
        r == starts_with(s@, lit@),
{
    let l = chars_of(lit);
    starts_with_chars(s, l.as_slice())
}

/// `s.ends_with(p)`
pub fn ends_with_chars(s: &[char], p: &[char]) -> (r: bool)
    ensures
        r == ends_with(s@, p@),
{
    if p.len() > s.len() {
        return false;
    }
    occurs_at_exec(s, p, s.len() - p.len())
}

/// `s.ends_with(lit)`
pub fn ends_with_lit(s: &[char], lit: &str) -> (r: bool)
    ensures
        r == ends_with(s@, lit@),
{
    let l = chars_of(lit);
    ends_with_chars(s, l.as_slice())
}

/// `s.contains(p)`
pub fn contains_chars(s: &[char], p: &[char]) -> (r: bool)
    ensures
        r == contains_str(s@, p@),
{
    if p.len() > s.len() {
        assert forall|i: int| !occurs_at(s@, p@, i) by {}
        return false;
    }
    let last = s.len() - p.len();
    let mut i: usize = 0;
    loop
        invariant_except_break
            last == s@.len() - p@.len(),
            i <= last,
            forall|j: int| 0 <= j < i ==> !occurs_at(s@, p@, j),
        ensures
            forall|j: int| 0 <= j <= last ==> !occurs_at(s@, p@, j),
        decreases last - i,
    {
        if occurs_at_exec(s, p, i) {
            return true;
        }
        if i == last {
            break;
        }
        i = i + 1;
    }
    assert forall|j: int| !occurs_at(s@, p@, j) by {}
    false
}

/// `s.contains(lit)`
pub fn contains_lit(s: &[char], lit: &str) -> (r: bool)
    ensures
        r == contains_str(s@, lit@),
{
    let l = chars_of(lit);
    contains_chars(s, l.as_slice())
}

/// Index of the first `c` in `s` (or `s.len()`).
pub fn find_first(s: &[char], c: char) -> (i: usize)
    ensures
        i as int == first_index_of(s@, c),
        i <= s@.len(),
{
    let mut i: usize = 0;
    while i < s.len() && s[i] != c
        invariant
            i <= s@.len(),
            forall|j: int| 0 <= j < i ==> s@[j] != c,
        decreases s@.len() - i,
    {
        i = i + 1;
    }
    proof {
        lemma_first_index_of(s@, c, i as int);
    }
    i
}

/// Position just after the last `c` in `s` (or `0`).
pub fn find_last_end(s: &[char], c: char) -> (k: usize)
    ensures
        k as int == last_sep_end(s@, c),
        k <= s@.len(),
{
    let mut k: usize = s.len();
    while k > 0 && s[k - 1] != c
        invariant
            k <= s@.len(),
            forall|j: int| k <= j < s@.len() ==> s@[j] != c,
        decreases k,
    {
        k = k - 1;
    }
    proof {
        lemma_last_sep_end(s@, c, k as int);
    }
    k
}

/// Copies `s[from..to]`.
pub fn sub_chars(s: &[char], from: usize, to: usize) -> (r: Vec<char>)
    requires
        from <= to <= s@.len(),
    ensures
        r@ == s@.subrange(from as int, to as int),
{
    let mut r: Vec<char> = Vec::new();
    let mut i: usize = from;
    while i < to
        invariant
            from <= i <= to <= s@.len(),
            r@ == s@.subrange(from as int, i as int),
        decreases to - i,
    {
        r.push(s[i]);
        i = i + 1;
        assert(r@ =~= s@.subrange(from as int, i as int));
    }
    r
}

/// Copies all of `s`.
pub fn copy_chars(s: &[char]) -> (r: Vec<char>)
    ensures
        r@ == s@,
{
    let r = sub_chars(s, 0, s.len());
    assert(s@.subrange(0, s@.len() as int) =~= s@);
    r
}

/// `s.split(c).next()`
pub fn before_first_exec(s: &[char], c: char) -> (r: Vec<char>)
    ensures
        r@ == before_first(s@, c),
{
    let i = find_first(s, c);
    let r = sub_chars(s, 0, i);
    assert(r@ =~= s@.take(i as int));
    r
}

/// `s.rsplit(c).next()`
pub fn after_last_exec(s: &[char], c: char) -> (r: Vec<char>)
    ensures
        r@ == after_last(s@, c),
{
    let k = find_last_end(s, c);
    let r = sub_chars(s, k, s.len());
    assert(r@ =~= s@.skip(k as int));
    r
}

/// Appends all of `b` to `a`.
pub fn append_chars(a: &mut Vec<char>, b: &[char])
    ensures
        final(a)@ == old(a)@ + b@,
{
    let mut i: usize = 0;
    while i < b.len()
        invariant
            i <= b@.len(),
            a@ == old(a)@ + b@.subrange(0, i as int),
        decreases b@.len() - i,
    {
        a.push(b[i]);
        i = i + 1;
        assert(a@ =~= old(a)@ + b@.subrange(0, i as int));
    }
    assert(b@.subrange(0, b@.len() as int) =~= b@);
}

/// Appends the characters of the literal `lit` to `a`.
pub fn append_lit(a: &mut Vec<char>, lit: &str)
    ensures
        final(a)@ == old(a)@ + lit@,
{
    let l = chars_of(lit);
    append_chars(a, l.as_slice());
}

/// `s.replace(a, b)` for single characters.
pub fn replace_char_exec(s: &[char], a: char, b: char) -> (r: Vec<char>)
    ensures
        r@ == replace_char(s@, a, b),
{
    let mut r: Vec<char> = Vec::new();
    let mut i: usize = 0;
    while i < s.len()
        invariant
            i <= s@.len(),
            r@ == replace_char(s@.subrange(0, i as int), a, b),
        decreases s@.len() - i,
    {
        let x = s[i];
        if x == a {
            r.push(b);
        } else {
            r.push(x);
        }
        i = i + 1;
        assert(r@ =~= replace_char(s@.subrange(0, i as int), a, b));
    }
    assert(s@.subrange(0, s@.len() as int) =~= s@);
    r
}

/// `char::to_ascii_lowercase`
pub fn ascii_lower_exec(c: char) -> (r: char)
    ensures
        r == ascii_lower(c),
{
    if 'A' <= c && c <= 'Z' {
        let u: u8 = (c as u8) + 32;
        u as char
    } else {
        c
    }
}

/// `str::to_ascii_lowercase`
pub fn ascii_lowercase_exec(s: &[char]) -> (r: Vec<char>)
    ensures
        r@ == ascii_lowercase(s@),
{
    let mut r: Vec<char> = Vec::new();
    let mut i: usize = 0;
    while i < s.len()
        invariant
            i <= s@.len(),
            r@ == ascii_lowercase(s@.subrange(0, i as int)),
        decreases s@.len() - i,
    {
        let x = ascii_lower_exec(s[i]);
        r.push(x);
        i = i + 1;
        assert(r@ =~= ascii_lowercase(s@.subrange(0, i as int)));
    }
    assert(s@.subrange(0, s@.len() as int) =~= s@);
    r
}

/// `str::eq_ignore_ascii_case`
pub fn eq_ignore_ascii_case_exec(a: &[char], b: &[char]) -> (r: bool)
    ensures
        r == eq_ignore_ascii_case(a@, b@),
{
    let la = ascii_lowercase_exec(a);
    let lb = ascii_lowercase_exec(b);
    chars_eq(la.as_slice(), lb.as_slice())
}

/// `s.split(c).collect::<Vec<_>>()`
pub fn split_exec(s: &[char], c: char) -> (r: Vec<Vec<char>>)
    ensures
        views(r@) == split(s@, c),
{
    let mut done: Vec<Vec<char>> = Vec::new();
    let mut cur: Vec<char> = Vec::new();
    let mut i: usize = 0;
    while i < s.len()
        invariant
            i <= s@.len(),
            views(done@).push(cur@) == split(s@.take(i as int), c),
        decreases s@.len() - i,
    {
        let ghost before = split(s@.take(i as int), c);
        assert(s@.take(i + 1).drop_last() =~= s@.take(i as int));
        let x = s[i];
        if x == c {
            let piece = cur;
            let ghost old_done = done@;
            done.push(piece);
            cur = Vec::new();
            assert(views(done@) =~= views(old_done).push(piece@));
            assert(views(done@).push(cur@) =~= before.push(Seq::<char>::empty()));
        } else {
            cur.push(x);
            assert(views(done@).push(cur@) =~= before.update(
                before.len() - 1,
                before.last().push(x),
            ));
        }
        i = i + 1;
    }
    assert(s@.take(s@.len() as int) =~= s@);
    let ghost old_done = done@;
    let ghost last = cur@;
    done.push(cur);
    assert(views(done@) =~= views(old_done).push(last));
    done
}

/// `parts.join(sep)`
pub fn join_exec(parts: &Vec<Vec<char>>, sep: &[char]) -> (r: Vec<char>)
    ensures
        r@ == join(views(parts@), sep@),
{
    let mut r: Vec<char> = Vec::new();
    let mut i: usize = 0;
    while i < parts.len()
        invariant
            i <= parts@.len(),
            r@ == join(views(parts@).take(i as int), sep@),
        decreases parts@.len() - i,
    {
        proof {
            lemma_join_push(views(parts@).take(i as int), sep@, views(parts@)[i as int]);
            assert(views(parts@).take(i as int).push(views(parts@)[i as int])
                =~= views(parts@).take(i + 1));
        }
        if i > 0 {
            append_chars(&mut r, sep);
        }
        append_chars(&mut r, parts[i].as_slice());
        i = i + 1;
    }
    assert(views(parts@).take(parts@.len() as int) =~= views(parts@));
    r
}


/// The decimal digit character of `d` (`d < 10`).
pub open spec fn digit_char(d: nat) -> char {
    (48 + d) as char
}

/// Decimal notation of a natural number, without leading zeros.
pub open spec fn decimal(n: nat) -> Seq<char>
    decreases n,
{
    if n < 10 {
        seq![digit_char(n)]
    } else {
        decimal(n / 10) + seq![digit_char(n % 10)]
    }
}

/// Decimal notation of an integer, with a leading `-` when negative.
pub open spec fn signed_decimal(n: int) -> Seq<char> {
    if n < 0 {
        seq!['-'] + decimal((-n) as nat)
    } else {
        decimal(n as nat)
    }
}

/// Appends the decimal notation of `n` (as `format!("{}", n)` writes it).
pub fn push_decimal(out: &mut Vec<char>, n: u64)
    ensures
        final(out)@ == old(out)@ + decimal(n as nat),
    decreases n,
{
    if n >= 10 {
        push_decimal(out, n / 10);
    }
    let d: u8 = (n % 10) as u8;
    let c: char = (48u8 + d) as char;
    out.push(c);
    assert(out@ =~= old(out)@ + decimal(n as nat));
}

/// Appends the decimal notation of a signed `n` (as `format!("{}", n)` writes it).
pub fn push_signed_decimal(out: &mut Vec<char>, n: i64)
    ensures
        final(out)@ == old(out)@ + signed_decimal(n as int),
{
    if n < 0 {
        out.push('-');
        let m: u64 = if n == i64::MIN {
            9223372036854775808u64
        } else {
            (-n) as u64
        };
        push_decimal(out, m);
        assert(out@ =~= old(out)@ + signed_decimal(n as int));
    } else {
        push_decimal(out, n as u64);
    }
}


/// `char::is_whitespace`: the Unicode `White_Space` property.
pub open spec fn is_white_space(c: char) -> bool {
    let u = c as u32;
    ||| (0x09 <= u && u <= 0x0d)
    ||| u == 0x20
    ||| u == 0x85
    ||| u == 0xa0
    ||| u == 0x1680
    ||| (0x2000 <= u && u <= 0x200a)
    ||| u == 0x2028
    ||| u == 0x2029
    ||| u == 0x202f
    ||| u == 0x205f
    ||| u == 0x3000
}

/// Number of leading white-space characters.
pub open spec fn leading_ws(s: Seq<char>) -> nat
    decreases s.len(),
{
    if s.len() > 0 && is_white_space(s[0]) {
        1 + leading_ws(s.drop_first())
    } else {
        0
    }
}

/// Number of trailing white-space characters.
pub open spec fn trailing_ws(s: Seq<char>) -> nat
    decreases s.len(),
{
    if s.len() > 0 && is_white_space(s.last()) {
        1 + trailing_ws(s.drop_last())
    } else {
        0
    }
}

/// `str::trim`: without leading and trailing white space.
pub open spec fn trim(s: Seq<char>) -> Seq<char> {
    let t = s.skip(leading_ws(s) as int);
    t.take(t.len() - trailing_ws(t))
}

/// Index of the first occurrence of `p` in `s`, if any.
pub open spec fn find_str(s: Seq<char>, p: Seq<char>) -> Option<nat>
    decreases s.len(),
{
    if occurs_at(s, p, 0) {
        Some(0)
    } else if s.len() == 0 {
        None
    } else {
        match find_str(s.drop_first(), p) {
            Some(i) => Some(i + 1),
            None => None,
        }
    }
}

/// Characterises `leading_ws`.
pub proof fn lemma_leading_ws(s: Seq<char>, i: int)
    requires
        0 <= i <= s.len(),
        forall|j: int| 0 <= j < i ==> is_white_space(s[j]),
        i == s.len() || !is_white_space(s[i]),
    ensures
        leading_ws(s) == i,
    decreases s.len(),
{
    if s.len() > 0 && i > 0 {
        assert forall|j: int| 0 <= j < i - 1 implies is_white_space(s.drop_first()[j]) by {
            assert(s.drop_first()[j] == s[j + 1]);
        }
        lemma_leading_ws(s.drop_first(), i - 1);
    }
}

/// Characterises `trailing_ws`.
pub proof fn lemma_trailing_ws(s: Seq<char>, k: int)
    requires
        0 <= k <= s.len(),
        forall|j: int| k <= j < s.len() ==> is_white_space(s[j]),
        k == 0 || !is_white_space(s[k - 1]),
    ensures
        trailing_ws(s) == s.len() - k,
    decreases s.len(),
{
    if s.len() > 0 && k < s.len() {
        assert(is_white_space(s[s.len() - 1]));
        lemma_trailing_ws(s.drop_last(), k);
    }
}

/// Characterises `find_str` by the first position where `p` occurs.
pub proof fn lemma_find_str(s: Seq<char>, p: Seq<char>, i: int)
    requires
        0 <= i,
        forall|j: int| 0 <= j < i ==> !occurs_at(s, p, j),
        occurs_at(s, p, i) || i > s.len(),
    ensures
        occurs_at(s, p, i) ==> find_str(s, p) == Some(i as nat),
        !occurs_at(s, p, i) ==> find_str(s, p) is None,
    decreases s.len(),
{
    if i > 0 && s.len() > 0 {
        assert forall|j: int| 0 <= j < i - 1 implies !occurs_at(s.drop_first(), p, j) by {
            if occurs_at(s.drop_first(), p, j) {
                assert(s.subrange(j + 1, j + 1 + p.len()) =~= s.drop_first().subrange(j, j + p.len()));
                assert(occurs_at(s, p, j + 1));
            }
        }
        if occurs_at(s, p, i) {
            assert(s.subrange(i, i + p.len()) =~= s.drop_first().subrange(i - 1, i - 1 + p.len()));
        }
        lemma_find_str(s.drop_first(), p, i - 1);
    } else if i > 0 {
        assert(!occurs_at(s, p, 0));
    }
}

/// Whether `c` is white space (`char::is_whitespace`).
pub fn is_white_space_exec(c: char) -> (r: bool)
    ensures
        r == is_white_space(c),
{
    let u = c as u32;
    (0x09 <= u && u <= 0x0d) || u == 0x20 || u == 0x85 || u == 0xa0 || u == 0x1680 || (0x2000
        <= u && u <= 0x200a) || u == 0x2028 || u == 0x2029 || u == 0x202f || u == 0x205f || u
        == 0x3000
}

/// `str::trim`
pub fn trim_exec(s: &[char]) -> (r: Vec<char>)
    ensures
        r@ == trim(s@),
{
    let mut i: usize = 0;
    while i < s.len() && is_white_space_exec(s[i])
        invariant
            i <= s@.len(),
            forall|j: int| 0 <= j < i ==> is_white_space(s@[j]),
        decreases s@.len() - i,
    {
        i = i + 1;
    }
    proof {
        lemma_leading_ws(s@, i as int);
    }
    let t = sub_chars(s, i, s.len());
    assert(t@ =~= s@.skip(i as int));
    let mut k: usize = t.len();
    while k > 0 && is_white_space_exec(t[k - 1])
        invariant
            k <= t@.len(),
            forall|j: int| k <= j < t@.len() ==> is_white_space(t@[j]),
        decreases k,
    {
        k = k - 1;
    }
    proof {
        lemma_trailing_ws(t@, k as int);
    }
    let r = sub_chars(t.as_slice(), 0, k);
    assert(r@ =~= t@.take(k as int));
    r
}

/// Index of the first occurrence of `p` in `s`, if any.
pub fn find_str_exec(s: &[char], p: &[char]) -> (r: Option<usize>)
    ensures
        match r {
            Some(i) => find_str(s@, p@) == Some(i as nat),
            None => find_str(s@, p@) is None,
        },
{
    let mut i: usize = 0;
    while i <= s.len()
        invariant
            i <= s@.len() + 1,
            forall|j: int| 0 <= j < i ==> !occurs_at(s@, p@, j),
        decreases s@.len() + 1 - i,
    {
        if occurs_at_exec(s, p, i) {
            proof {
                lemma_find_str(s@, p@, i as int);
            }
            return Some(i);
        }
        if i == s.len() {
            proof {
                assert forall|j: int| 0 <= j < i + 1 implies !occurs_at(s@, p@, j) by {}
                lemma_find_str(s@, p@, i + 1);
            }
            return None;
        }
        i = i + 1;
    }
    proof {
        lemma_find_str(s@, p@, i as int);
    }
    None
}

} // verus!
