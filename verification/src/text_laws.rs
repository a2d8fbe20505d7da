//! What the text functions come to, said without them.

use vstd::arithmetic::div_mod::*;
use vstd::prelude::*;

use crate::text;

verus! {

proof fn lemma_skipped(s: Seq<char>, p: spec_fn(char) -> bool)
    ensures
        ({
            let n = s.len() - text::skip_while(s, p).len();
            &&& 0 <= n <= s.len()
            &&& text::skip_while(s, p) == s.skip(n)
            &&& forall|k: int| 0 <= k < n ==> p(#[trigger] s[k])
            &&& n < s.len() ==> !p(s[n])
        }),
    decreases s.len(),
{
    if s.len() > 0 && p(s.first()) {
        let rest = s.drop_first();
        lemma_skipped(rest, p);
        let m = rest.len() - text::skip_while(rest, p).len();
        assert(rest.skip(m) =~= s.skip(m + 1));
        assert forall|k: int| 0 <= k < m + 1 implies p(#[trigger] s[k]) by {
            if k > 0 {
                assert(rest[k - 1] == s[k]);
            }
        }
        if m < rest.len() {
            assert(rest[m] == s[m + 1]);
        }
    } else {
        assert(s.skip(0) =~= s);
    }
}

proof fn lemma_dropped(s: Seq<char>, p: spec_fn(char) -> bool)
    ensures
        ({
            let n = text::drop_while(s, p).len() as int;
            &&& n <= s.len()
            &&& text::drop_while(s, p) == s.take(n)
            &&& forall|k: int| n <= k < s.len() ==> p(#[trigger] s[k])
            &&& n > 0 ==> !p(s[n - 1])
        }),
    decreases s.len(),
{
    if s.len() > 0 && p(s.last()) {
        let rest = s.drop_last();
        lemma_dropped(rest, p);
        let n = text::drop_while(rest, p).len() as int;
        assert(rest.take(n) =~= s.take(n));
        assert forall|k: int| n <= k < s.len() implies p(#[trigger] s[k]) by {
            if k < rest.len() {
                assert(rest[k] == s[k]);
            }
        }
    } else {
        assert(s.take(s.len() as int) =~= s);
    }
}

/// Trimming cuts a text at two places and loses nothing in between: what is cut off is whitespace,
/// and what is left neither starts nor ends with any.
pub proof fn law_trim_cuts_whitespace_only(s: Seq<char>) -> (cut: (int, int))
    ensures
        0 <= cut.0 <= cut.1 <= s.len(),
        text::trimmed(s) == s.subrange(cut.0, cut.1),
        forall|k: int| 0 <= k < cut.0 ==> text::is_whitespace(#[trigger] s[k]),
        forall|k: int| cut.1 <= k < s.len() ==> text::is_whitespace(#[trigger] s[k]),
        cut.0 < cut.1 ==> !text::is_whitespace(s[cut.0]) && !text::is_whitespace(s[cut.1 - 1]),
{
    let p = |c: char| text::is_whitespace(c);
    lemma_skipped(s, p);
    let rest = text::skip_while(s, p);
    let from = s.len() - rest.len();
    lemma_dropped(rest, p);
    let n = text::drop_while(rest, p).len() as int;
    assert(rest.take(n) =~= s.subrange(from, from + n));
    assert forall|k: int| from + n <= k < s.len() implies text::is_whitespace(#[trigger] s[k]) by {
        assert(rest[k - from] == s[k]);
        assert(p(rest[k - from]));
    }
    assert forall|k: int| 0 <= k < from implies text::is_whitespace(#[trigger] s[k]) by {
        assert(p(s[k]));
    }
    if n > 0 {
        assert(!p(rest[n - 1]));
        assert(rest[n - 1] == s[from + n - 1]);
        assert(!p(s[from]));
    }
    (from, from + n)
}

/// A trimmed text is empty exactly where there is nothing but whitespace.
pub proof fn law_trim_leaves_nothing_of_blank(s: Seq<char>)
    ensures
        text::trimmed(s).len() == 0 <==> forall|k: int|
            0 <= k < s.len() ==> text::is_whitespace(#[trigger] s[k]),
{
    let cut = law_trim_cuts_whitespace_only(s);
    if text::trimmed(s).len() == 0 {
        assert forall|k: int| 0 <= k < s.len() implies text::is_whitespace(#[trigger] s[k]) by {
            if k >= cut.0 {
                assert(cut.1 <= k);
            }
        }
    } else {
        assert(!text::is_whitespace(s[cut.0]));
    }
}

/// Of a text only slashes at its end are dropped, and all of them.
pub proof fn law_only_end_slashes_are_dropped(s: Seq<char>)
    ensures
        ({
            let kept = text::without_end_slashes(s);
            let n = kept.len() as int;
            &&& n <= s.len()
            &&& kept == s.take(n)
            &&& forall|k: int| n <= k < s.len() ==> #[trigger] s[k] == '/'
            &&& n > 0 ==> s[n - 1] != '/'
        }),
{
    let p = |c: char| c == '/';
    lemma_dropped(s, p);
    let n = text::without_end_slashes(s).len() as int;
    assert forall|k: int| n <= k < s.len() implies #[trigger] s[k] == '/' by {
        assert(p(s[k]));
    }
}

/// The first occurrence is an occurrence, and there is none before it; where none is found there
/// is none.
pub proof fn law_first_occurrence_is_found(s: Seq<char>, sep: Seq<char>)
    ensures
        match text::find_text(s, sep) {
            Some(i) => {
                &&& 0 <= i
                &&& i + sep.len() <= s.len()
                &&& s.subrange(i, i + sep.len()) == sep
                &&& forall|j: int|
                    0 <= j < i ==> #[trigger] s.subrange(j, j + sep.len()) != sep || j + sep.len()
                        > s.len()
            },
            None => forall|j: int|
                0 <= j && j + sep.len() <= s.len() ==> #[trigger] s.subrange(j, j + sep.len())
                    != sep,
        },
    decreases s.len(),
{
    if sep.is_prefix_of(s) {
        assert(s.subrange(0, sep.len() as int) =~= s.take(sep.len() as int));
    } else if s.len() > 0 {
        let rest = s.drop_first();
        law_first_occurrence_is_found(rest, sep);
        assert forall|j: int|
            0 < j && j + sep.len() <= s.len() implies #[trigger] s.subrange(j, j + sep.len())
            == rest.subrange(j - 1, j - 1 + sep.len()) by {
            assert(s.subrange(j, j + sep.len()) =~= rest.subrange(j - 1, j - 1 + sep.len()));
        }
        if sep.len() <= s.len() {
            assert(s.subrange(0, sep.len() as int) =~= s.take(sep.len() as int));
        }
    } else {
        assert forall|j: int|
            0 <= j && j + sep.len() <= s.len() implies #[trigger] s.subrange(j, j + sep.len())
            != sep by {
            assert(s.take(0) =~= s.subrange(0, 0));
        }
    }
}

/// Joining is done piece by piece: what two lists of pieces come to stands on both sides of one
/// more separator.
pub proof fn law_join_adds_up(a: Seq<Seq<char>>, b: Seq<Seq<char>>, sep: Seq<char>)
    requires
        a.len() > 0,
        b.len() > 0,
    ensures
        text::joined(a + b, sep) == text::joined(a, sep) + sep + text::joined(b, sep),
        text::joined(seq![a[0]], sep) == a[0],
    decreases b.len(),
{
    let all = a + b;
    assert(all.drop_last() =~= a + b.drop_last());
    if b.len() == 1 {
        assert(a + b.drop_last() =~= a);
    } else {
        law_join_adds_up(a, b.drop_last(), sep);
        assert(text::joined(all, sep) =~= text::joined(a, sep) + sep + text::joined(b, sep));
    }
}

/// A text that was cut at each separator has no separator left in any piece, and joining the
/// pieces gives it back.
pub proof fn law_split_is_undone_by_join(s: Seq<char>, sep: Seq<char>)
    requires
        sep.len() > 0,
    ensures
        text::split_text(s, sep).len() > 0,
        text::joined(text::split_text(s, sep), sep) == s,
        forall|k: int, j: int|
            #![trigger text::split_text(s, sep)[k].subrange(j, j + sep.len())]
            0 <= k < text::split_text(s, sep).len() && 0 <= j && j + sep.len()
                <= text::split_text(s, sep)[k].len() ==> text::split_text(s, sep)[k].subrange(
                j,
                j + sep.len(),
            ) != sep,
    decreases s.len(),
{
    law_first_occurrence_is_found(s, sep);
    let pieces = text::split_text(s, sep);
    if let Some(i) = text::find_text(s, sep) {
        let rest = s.skip(i + sep.len());
        law_split_is_undone_by_join(rest, sep);
        let more = text::split_text(rest, sep);
        law_join_adds_up(seq![s.take(i)], more, sep);
        assert(s.take(i) + sep + rest =~= s);
        assert forall|k: int, j: int|
            #![trigger pieces[k].subrange(j, j + sep.len())]
            0 <= k < pieces.len() && 0 <= j && j + sep.len()
                <= pieces[k].len() implies pieces[k].subrange(j, j + sep.len()) != sep by {
            if k == 0 {
                assert(pieces[0].subrange(j, j + sep.len()) =~= s.subrange(j, j + sep.len()));
            } else {
                assert(pieces[k] == more[k - 1]);
                assert(more[k - 1].subrange(j, j + sep.len()) != sep);
            }
        }
    } else {
        law_join_adds_up(seq![s], seq![s], sep);
        assert(pieces =~= seq![s]);
    }
}

/// The number that decimal digits stand for.
pub open spec fn number_of(digits: Seq<char>) -> int
    decreases digits.len(),
{
    if digits.len() == 0 {
        0
    } else {
        number_of(digits.drop_last()) * 10 + (digits.last() as int - 48)
    }
}

/// A number in decimal notation is made of digits, without a zero in front, and stands for that
/// number.
pub proof fn law_decimal_reads_back(n: nat)
    ensures
        number_of(text::decimal(n)) == n,
        text::decimal(n).len() > 0,
        n > 0 ==> text::decimal(n)[0] != '0',
        forall|i: int|
            0 <= i < text::decimal(n).len() ==> '0' <= #[trigger] text::decimal(n)[i] <= '9',
    decreases n,
{
    reveal_with_fuel(number_of, 2);
    if n < 10 {
        assert(text::decimal(n).drop_last() =~= Seq::<char>::empty());
    } else {
        law_decimal_reads_back(n / 10);
        assert(text::decimal(n).drop_last() =~= text::decimal(n / 10));
    }
}

/// Rounding goes to a nearest multiple of the unit, and where two are equally near to the even one.
pub proof fn law_rounding_is_nearest(n: nat, unit: nat)
    requires
        unit > 0,
    ensures
        ({
            let q = text::nearest(n, unit);
            &&& 2 * (q * unit) <= 2 * n + unit
            &&& 2 * n <= 2 * (q * unit) + unit
            &&& (2 * (q * unit) == 2 * n + unit || 2 * n == 2 * (q * unit) + unit) ==> q % 2 == 0
        }),
{
    let d = (n / unit) as int;
    let r = (n % unit) as int;
    lemma_fundamental_div_mod(n as int, unit as int);
    assert(unit * d == d * unit) by (nonlinear_arith);
    assert((d + 1) * unit == d * unit + unit) by (nonlinear_arith);
}

} // verus!
