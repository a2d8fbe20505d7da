//! Text helpers. Contracts speak of a text as the sequence of its characters.

use vstd::prelude::*;

verus! {

broadcast use vstd::string::group_string_axioms;

/// `String::push`: appends one character at the end.
pub assume_specification[ String::push ](s: &mut String, c: char)
    ensures
        final(s)@ == old(s)@.push(c),
;

/// The characters with the Unicode property White_Space.
pub open spec fn is_whitespace(c: char) -> bool {
    ||| '\u{9}' <= c <= '\u{d}'
    ||| c == '\u{20}'
    ||| c == '\u{85}'
    ||| c == '\u{a0}'
    ||| c == '\u{1680}'
    ||| '\u{2000}' <= c <= '\u{200a}'
    ||| c == '\u{2028}'
    ||| c == '\u{2029}'
    ||| c == '\u{202f}'
    ||| c == '\u{205f}'
    ||| c == '\u{3000}'
}

/// `s` without its longest prefix of characters that satisfy `p`.
pub open spec fn skip_while(s: Seq<char>, p: spec_fn(char) -> bool) -> Seq<char>
    decreases s.len(),
{
    if s.len() > 0 && p(s.first()) {
        skip_while(s.drop_first(), p)
    } else {
        s
    }
}

/// `s` without its longest suffix of characters that satisfy `p`.
pub open spec fn drop_while(s: Seq<char>, p: spec_fn(char) -> bool) -> Seq<char>
    decreases s.len(),
{
    if s.len() > 0 && p(s.last()) {
        drop_while(s.drop_last(), p)
    } else {
        s
    }
}

/// `s` without leading and trailing whitespace.
pub open spec fn trimmed(s: Seq<char>) -> Seq<char> {
    drop_while(skip_while(s, |c: char| is_whitespace(c)), |c: char| is_whitespace(c))
}

/// `s` without the slashes at its end.
pub open spec fn without_end_slashes(s: Seq<char>) -> Seq<char> {
    drop_while(s, |c: char| c == '/')
}

/// Tells whether `c` is whitespace.
pub fn white(c: char) -> (res: bool)
    ensures
        res == is_whitespace(c),
{
    ('\u{9}' <= c && c <= '\u{d}') || c == '\u{20}' || c == '\u{85}' || c == '\u{a0}' || c
        == '\u{1680}' || ('\u{2000}' <= c && c <= '\u{200a}') || c == '\u{2028}' || c == '\u{2029}'
        || c == '\u{202f}' || c == '\u{205f}' || c == '\u{3000}'
}

/// The characters of `s`, in order.
pub fn chars_of(s: &str) -> (chars: Vec<char>)
    ensures
        chars@ == s@,
{
    let mut chars: Vec<char> = Vec::new();
    for c in it: s.chars()
        invariant
            it.seq() == s@,
            chars@ == s@.take(it.index()),
    {
        chars.push(c);
    }
    chars
}

/// The text made of `chars[from..to]`.
pub fn string_of(chars: &Vec<char>, from: usize, to: usize) -> (s: String)
    requires
        from <= to <= chars@.len(),
    ensures
        s@ == chars@.subrange(from as int, to as int),
{
    let mut s = String::new();
    let mut i: usize = from;
    while i < to
        invariant
            from <= i <= to <= chars@.len(),
            s@ == chars@.subrange(from as int, i as int),
        decreases to - i,
    {
        s.push(chars[i]);
        i += 1;
    }
    s
}

/// The position of the first occurrence of `sep` in `s`.
pub open spec fn find_text(s: Seq<char>, sep: Seq<char>) -> Option<int>
    decreases s.len(),
{
    if sep.is_prefix_of(s) {
        Some(0)
    } else if s.len() == 0 {
        None
    } else {
        match find_text(s.drop_first(), sep) {
            Some(i) => Some(i + 1),
            None => None,
        }
    }
}

/// An occurrence lies inside the text.
pub proof fn lemma_find_text_fits(s: Seq<char>, sep: Seq<char>)
    ensures
        find_text(s, sep) matches Some(i) ==> 0 <= i && i + sep.len() <= s.len(),
    decreases s.len(),
{
    if !sep.is_prefix_of(s) && s.len() > 0 {
        lemma_find_text_fits(s.drop_first(), sep);
    }
}

/// The pieces of `s` between the occurrences of `sep`, from left to right.
pub open spec fn split_text(s: Seq<char>, sep: Seq<char>) -> Seq<Seq<char>>
    decreases s.len(),
{
    match find_text(s, sep) {
        Some(i) if sep.len() > 0 => {
            proof {
                lemma_find_text_fits(s, sep);
            }
            seq![s.take(i)] + split_text(s.skip(i + sep.len()), sep)
        },
        _ => seq![s],
    }
}

/// The texts of a list of strings.
pub open spec fn texts(v: Seq<String>) -> Seq<Seq<char>> {
    v.map_values(|s: String| s@)
}

/// The parts, with `sep` between each and the next.
pub open spec fn joined(parts: Seq<Seq<char>>, sep: Seq<char>) -> Seq<char>
    decreases parts.len(),
{
    if parts.len() == 0 {
        Seq::empty()
    } else if parts.len() == 1 {
        parts[0]
    } else {
        joined(parts.drop_last(), sep) + sep + parts.last()
    }
}

/// The parts, with `sep` between each and the next.
pub fn join(parts: &Vec<String>, sep: &str) -> (res: String)
    ensures
        res@ == joined(texts(parts@), sep@),
{
    let mut res = String::new();
    let ghost all = texts(parts@);
    let mut i: usize = 0;
    while i < parts.len()
        invariant
            i <= parts@.len(),
            all == texts(parts@),
            res@ == joined(all.take(i as int), sep@),
        decreases parts@.len() - i,
    {
        if i > 0 {
            res.append(sep);
        }
        res.append(parts[i].as_str());
        assert(all.take(i + 1).drop_last() =~= all.take(i as int));
        assert(all.take(i + 1).last() == parts@[i as int]@);
        i += 1;
    }
    assert(all.take(i as int) =~= all);
    res
}

fn matches_at(chars: &Vec<char>, at: usize, sep: &Vec<char>) -> (res: bool)
    requires
        at <= chars@.len(),
    ensures
        res == sep@.is_prefix_of(chars@.skip(at as int)),
{
    if chars.len() - at < sep.len() {
        return false;
    }
    let mut k: usize = 0;
    while k < sep.len()
        invariant
            k <= sep@.len(),
            at + sep.len() <= chars.len(),
            forall|j: int| 0 <= j < k ==> sep@[j] == chars@[at + j],
        decreases sep@.len() - k,
    {
        if sep[k] != chars[at + k] {
            assert(sep@[k as int] != chars@.skip(at as int)[k as int]);
            return false;
        }
        k += 1;
    }
    assert(sep@ =~= chars@.skip(at as int).take(sep@.len() as int));
    true
}

/// Cuts `s` at each occurrence of `sep`.
pub fn split(s: &str, sep: &str) -> (pieces: Vec<String>)
    requires
        sep@.len() > 0,
    ensures
        texts(pieces@) == split_text(s@, sep@),
{
    let chars = chars_of(s);
    let sep_chars = chars_of(sep);
    let n: usize = chars.len();
    let m: usize = sep_chars.len();
    let mut pieces: Vec<String> = Vec::new();
    let mut start: usize = 0;
    let mut i: usize = 0;
    assert(chars@.skip(0) =~= chars@);
    assert(texts(pieces@) + split_text(chars@, sep@) =~= split_text(chars@, sep@));
    while i < n
        invariant
            chars@ == s@,
            sep_chars@ == sep@,
            n == chars@.len(),
            m == sep@.len(),
            m > 0,
            start <= i <= n,
            texts(pieces@) + split_text(chars@.skip(start as int), sep@) == split_text(s@, sep@),
            find_text(chars@.skip(start as int), sep@) == match find_text(
                chars@.skip(i as int),
                sep@,
            ) {
                Some(k) => Some(k + i - start),
                None => None,
            },
        decreases n - i,
    {
        if matches_at(&chars, i, &sep_chars) {
            let ghost rest = chars@.skip(start as int);
            let ghost before = texts(pieces@);
            let piece = string_of(&chars, start, i);
            pieces.push(piece);
            proof {
                assert(find_text(rest, sep@) == Some(i - start));
                assert(rest.take(i - start) =~= piece@);
                assert(rest.skip(i - start + m) =~= chars@.skip(i + m));
                assert(texts(pieces@) =~= before.push(piece@));
                assert(before + (seq![piece@] + split_text(chars@.skip(i + m), sep@))
                    =~= before.push(piece@) + split_text(chars@.skip(i + m), sep@));
            }
            i = i + m;
            start = i;
        } else {
            assert(chars@.skip(i as int).drop_first() =~= chars@.skip(i + 1));
            i += 1;
        }
    }
    let piece = string_of(&chars, start, n);
    let ghost before = texts(pieces@);
    pieces.push(piece);
    proof {
        let rest = chars@.skip(start as int);
        assert(chars@.skip(n as int) =~= Seq::<char>::empty());
        assert(find_text(Seq::<char>::empty(), sep@) is None);
        assert(rest =~= piece@);
        assert(texts(pieces@) =~= before + seq![piece@]);
    }
    pieces
}

/// `s` without leading and trailing whitespace.
pub fn trim(s: &str) -> (res: String)
    ensures
        res@ == trimmed(s@),
{
    let chars = chars_of(s);
    let ghost p = |c: char| is_whitespace(c);
    let mut from: usize = 0;
    assert(chars@.skip(0) =~= chars@);
    while from < chars.len() && white(chars[from])
        invariant
            from <= chars@.len(),
            p == (|c: char| is_whitespace(c)),
            skip_while(chars@, p) == skip_while(chars@.skip(from as int), p),
        decreases chars@.len() - from,
    {
        assert(chars@.skip(from as int).drop_first() =~= chars@.skip(from + 1));
        from += 1;
    }
    let ghost rest = chars@.skip(from as int);
    assert(skip_while(chars@, p) == rest);
    let mut to: usize = chars.len();
    assert(chars@.subrange(from as int, to as int) =~= rest);
    while from < to && white(chars[to - 1])
        invariant
            from <= to <= chars@.len(),
            p == (|c: char| is_whitespace(c)),
            drop_while(rest, p) == drop_while(chars@.subrange(from as int, to as int), p),
        decreases to,
    {
        assert(chars@.subrange(from as int, to as int).drop_last() =~= chars@.subrange(
            from as int,
            to - 1,
        ));
        to -= 1;
    }
    string_of(&chars, from, to)
}

/// `s` without the slashes at its end.
pub fn trim_end_slashes(s: &str) -> (res: String)
    ensures
        res@ == without_end_slashes(s@),
{
    let chars = chars_of(s);
    let ghost p = |c: char| c == '/';
    let mut to: usize = chars.len();
    assert(chars@.subrange(0, to as int) =~= s@);
    while to > 0 && chars[to - 1] == '/'
        invariant
            to <= chars@.len(),
            p == (|c: char| c == '/'),
            drop_while(s@, p) == drop_while(chars@.subrange(0, to as int), p),
        decreases to,
    {
        assert(chars@.subrange(0, to as int).drop_last() =~= chars@.subrange(0, to - 1));
        to -= 1;
    }
    string_of(&chars, 0, to)
}

/// What follows `prefix` in `s`, if `s` starts with it.
pub fn strip_prefix(s: &str, prefix: &str) -> (res: Option<String>)
    ensures
        match res {
            Some(rest) => prefix@.is_prefix_of(s@) && rest@ == s@.skip(prefix@.len() as int),
            None => !prefix@.is_prefix_of(s@),
        },
{
    let chars = chars_of(s);
    let prefix_chars = chars_of(prefix);
    assert(chars@.skip(0) =~= chars@);
    if matches_at(&chars, 0, &prefix_chars) {
        let rest = string_of(&chars, prefix_chars.len(), chars.len());
        assert(rest@ =~= s@.skip(prefix@.len() as int));
        Some(rest)
    } else {
        None
    }
}

/// Tells whether two texts are the same.
pub fn same(a: &str, b: &str) -> (res: bool)
    ensures
        res == (a@ == b@),
{
    a.to_string() == b.to_string()
}

/// Tells whether one of `list` is the text `s`.
pub fn has(list: &Vec<String>, s: &str) -> (res: bool)
    ensures
        res == texts(list@).contains(s@),
{
    let mut i: usize = 0;
    while i < list.len()
        invariant
            i <= list@.len(),
            forall|j: int| 0 <= j < i ==> #[trigger] texts(list@)[j] != s@,
        decreases list@.len() - i,
    {
        if same(list[i].as_str(), s) {
            assert(texts(list@)[i as int] == s@);
            return true;
        }
        i += 1;
    }
    false
}

/// A text in lower case, by the Unicode rules that `str::to_lowercase` follows.
pub uninterp spec fn lowercase(s: Seq<char>) -> Seq<char>;

/// Tells whether a text has ASCII characters only.
pub open spec fn is_ascii_text(s: Seq<char>) -> bool {
    forall|i: int| 0 <= i < s.len() ==> s[i] <= '\u{7f}'
}

/// An ASCII character in lower case.
pub open spec fn ascii_lower(c: char) -> char {
    if 'A' <= c <= 'Z' {
        (c as int + 32) as char
    } else {
        c
    }
}

/// An ASCII text in lower case.
pub open spec fn ascii_lowercase(s: Seq<char>) -> Seq<char> {
    s.map_values(|c: char| ascii_lower(c))
}

/// `str::to_lowercase`. The result is a function of the text. In an ASCII text the letters `A` to
/// `Z` become `a` to `z` and nothing else changes.
#[verifier::external_body]
pub(crate) fn to_lowercase(s: &str) -> (res: String)
    ensures
        res@ == lowercase(s@),
        is_ascii_text(s@) ==> res@ == ascii_lowercase(s@),
{
    s.to_lowercase()
}

/// The decimal digit of value `d`.
pub open spec fn digit(d: nat) -> char
    recommends
        d < 10,
{
    (48 + d) as char
}

/// `n` in decimal notation.
pub open spec fn decimal(n: nat) -> Seq<char>
    decreases n,
{
    if n < 10 {
        seq![digit(n)]
    } else {
        decimal(n / 10).push(digit(n % 10))
    }
}

/// Writes `n` in decimal notation.
pub fn decimal_of(n: u64) -> (s: String)
    ensures
        s@ == decimal(n as nat),
    decreases n,
{
    let mut s = if n < 10 {
        String::new()
    } else {
        decimal_of(n / 10)
    };
    let d: u8 = (n % 10) as u8;
    s.push((48 + d) as char);
    assert(n < 10 ==> s@ =~= seq![digit(n as nat)]);
    s
}

/// `n / unit` to the nearest integer, a tie going to the even one.
pub open spec fn nearest(n: nat, unit: nat) -> nat {
    let q = n / unit;
    let r = n % unit;
    if 2 * r < unit || (2 * r == unit && q % 2 == 0) {
        q
    } else {
        q + 1
    }
}

/// `n / unit` to the nearest integer, a tie going to the even one.
pub fn nearest_of(n: u64, unit: u64) -> (res: u64)
    requires
        1 < unit,
    ensures
        res == nearest(n as nat, unit as nat),
{
    let q = n / unit;
    let r = n % unit;
    assert(q <= n / 2) by (nonlinear_arith)
        requires
            q == n / unit,
            1 < unit,
    ;
    if r < unit - r || (r == unit - r && q % 2 == 0) {
        q
    } else {
        q + 1
    }
}

proof fn lemma_skip_while(s: Seq<char>, p: spec_fn(char) -> bool)
    ensures
        skip_while(s, p).len() > 0 ==> !p(skip_while(s, p).first()),
        skip_while(skip_while(s, p), p) == skip_while(s, p),
    decreases s.len(),
{
    if s.len() > 0 && p(s.first()) {
        lemma_skip_while(s.drop_first(), p);
    }
}

/// What is left after dropping from the end is a start of the text and does not end in what is
/// dropped.
pub proof fn lemma_drop_while(s: Seq<char>, p: spec_fn(char) -> bool)
    ensures
        drop_while(s, p).is_prefix_of(s),
        drop_while(s, p).len() > 0 ==> !p(drop_while(s, p).last()),
        drop_while(drop_while(s, p), p) == drop_while(s, p),
    decreases s.len(),
{
    if s.len() > 0 && p(s.last()) {
        let shorter = s.drop_last();
        lemma_drop_while(shorter, p);
        let left = drop_while(shorter, p);
        assert(left =~= s.take(left.len() as int));
    } else {
        assert(s =~= s.take(s.len() as int));
    }
}

/// A trimmed text neither starts nor ends with whitespace, and trimming it again changes nothing.
pub proof fn law_trim_is_stable(s: Seq<char>)
    ensures
        trimmed(s).len() > 0 ==> !is_whitespace(trimmed(s).first()) && !is_whitespace(
            trimmed(s).last(),
        ),
        trimmed(trimmed(s)) == trimmed(s),
{
    let p = |c: char| is_whitespace(c);
    let started = skip_while(s, p);
    lemma_skip_while(s, p);
    lemma_drop_while(started, p);
    let t = trimmed(s);
    if t.len() > 0 {
        assert(t.first() == started.first());
    }
    assert(skip_while(t, p) == t);
    assert(drop_while(t, p) == t);
}

/// A text that has nothing to trim at its ends is left as it is.
pub proof fn law_trim_keeps_inner(s: Seq<char>)
    requires
        s.len() > 0 ==> !is_whitespace(s.first()) && !is_whitespace(s.last()),
    ensures
        trimmed(s) == s,
{
}

} // verus!
