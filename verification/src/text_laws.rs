//! What the operations on texts come to, told by how a text is put together.

use vstd::prelude::*;

use crate::text::{
    all_digits, before_char, before_space, contains, decimal, digits_value, is_space,
    lemma_before_char, lemma_before_space, lemma_decimal_digits, lemma_trim_start, parsed_number,
    replaced, split, split_once, starts_with, trim_end, trim_start, trimmed, words,
};

verus! {

/// `s` holds no white space.
pub open spec fn space_free(s: Seq<char>) -> bool {
    forall|i: int| 0 <= i < s.len() ==> !is_space(#[trigger] s[i])
}

/// Nothing but white space.
pub open spec fn is_blank(s: Seq<char>) -> bool {
    forall|i: int| 0 <= i < s.len() ==> is_space(#[trigger] s[i])
}

/// `s` holds no `sep`.
pub open spec fn sep_free(s: Seq<char>, sep: char) -> bool {
    forall|i: int| 0 <= i < s.len() ==> #[trigger] s[i] != sep
}

/// White space is what Unicode calls so: of ASCII, the blank and the five controls from
/// the tab to the carriage return, and of the rest the blanks and separators.
pub proof fn white_space_is_unicode_white_space(c: char)
    ensures
        is_space(c) <==> (c as u32 == 0x20 || 0x09 <= c as u32 <= 0x0d || c as u32 == 0x85
            || c as u32 == 0xa0 || c as u32 == 0x1680 || 0x2000 <= c as u32 <= 0x200a || c as u32
            == 0x2028 || c as u32 == 0x2029 || c as u32 == 0x202f || c as u32 == 0x205f || c as u32
            == 0x3000),
{
}

// ---------------------------------------------------------------------------
// Trimming
// ---------------------------------------------------------------------------

proof fn lemma_trim_start_at(s: Seq<char>) -> (a: int)
    ensures
        0 <= a <= s.len(),
        trim_start(s) == s.skip(a),
        forall|i: int| 0 <= i < a ==> is_space(#[trigger] s[i]),
        a < s.len() ==> !is_space(s[a]),
    decreases s.len(),
{
    if s.len() > 0 && is_space(s[0]) {
        let b = lemma_trim_start_at(s.skip(1));
        assert(s.skip(1).skip(b) =~= s.skip(b + 1));
        assert forall|i: int| 0 <= i < b + 1 implies is_space(#[trigger] s[i]) by {
            if i > 0 {
                assert(s[i] == s.skip(1)[i - 1]);
            }
        }
        if b + 1 < s.len() {
            assert(s[b + 1] == s.skip(1)[b]);
        }
        b + 1
    } else {
        assert(s.skip(0) =~= s);
        0
    }
}

proof fn lemma_trim_end_at(s: Seq<char>) -> (b: int)
    ensures
        0 <= b <= s.len(),
        trim_end(s) == s.take(b),
        forall|i: int| b <= i < s.len() ==> is_space(#[trigger] s[i]),
        b > 0 ==> !is_space(s[b - 1]),
    decreases s.len(),
{
    if s.len() > 0 && is_space(s.last()) {
        let b = lemma_trim_end_at(s.drop_last());
        assert(s.drop_last().take(b) =~= s.take(b));
        assert forall|i: int| b <= i < s.len() implies is_space(#[trigger] s[i]) by {
            if i < s.len() - 1 {
                assert(s[i] == s.drop_last()[i]);
            }
        }
        b
    } else {
        assert(s.take(s.len() as int) =~= s);
        s.len() as int
    }
}

/// Trimming takes the white space off both ends of a text and nothing else: what is left
/// is the text between, which begins and ends with something else.
pub proof fn trimming_takes_white_space_off_both_ends(s: Seq<char>)
    ensures
        exists|a: int, b: int|
            {
                &&& 0 <= a <= b <= s.len()
                &&& trimmed(s) == #[trigger] s.subrange(a, b)
                &&& forall|i: int| 0 <= i < a ==> is_space(#[trigger] s[i])
                &&& forall|i: int| b <= i < s.len() ==> is_space(#[trigger] s[i])
                &&& a < b ==> !is_space(s[a]) && !is_space(s[b - 1])
            },
{
    let a = lemma_trim_start_at(s);
    let t = s.skip(a);
    let n = lemma_trim_end_at(t);
    let b = a + n;
    assert(t.take(n) =~= s.subrange(a, b));
    assert forall|i: int| b <= i < s.len() implies is_space(#[trigger] s[i]) by {
        assert(s[i] == t[i - a]);
    }
    if a < b {
        assert(s[b - 1] == t[n - 1]);
    }
}

/// A text that neither begins nor ends with white space is left as it is, whatever white
/// space stands around it.
pub proof fn trimming_leaves_the_text_between(left: Seq<char>, s: Seq<char>, right: Seq<char>)
    requires
        is_blank(left),
        is_blank(right),
        s.len() > 0 ==> !is_space(s[0]) && !is_space(s.last()),
    ensures
        trimmed(left + s + right) == s,
{
    let all = left + s + right;
    let a = lemma_trim_start_at(all);
    let t = all.skip(a);
    let n = lemma_trim_end_at(t);
    if s.len() > 0 {
        assert(all[left.len() as int] == s[0]);
        assert(a <= left.len()) by {
            if a > left.len() {
                assert(is_space(all[left.len() as int]));
            }
        }
        if a < left.len() {
            assert(all[a] == left[a]);
        }
        assert(a == left.len());
        let e = (s.len() - 1) as int;
        assert(t[e] == s[e]);
        assert(n > e) by {
            if n <= e {
                assert(is_space(t[e]));
            }
        }
        if n > s.len() {
            assert(t[n - 1] == right[n - 1 - s.len()]);
        }
        assert(n == s.len());
        assert(t.take(n) =~= s);
    } else {
        assert(n == 0) by {
            if n > 0 {
                let i = a + n - 1;
                assert(t[n - 1] == all[i]);
                if i < left.len() {
                    assert(all[i] == left[i]);
                } else {
                    assert(all[i] == right[i - left.len()]);
                }
            }
        }
        assert(t.take(n) =~= s);
    }
}

// ---------------------------------------------------------------------------
// Words
// ---------------------------------------------------------------------------

proof fn lemma_before_space_at(s: Seq<char>)
    ensures
        forall|i: int| 0 <= i < before_space(s) ==> !is_space(#[trigger] s[i]),
        before_space(s) < s.len() ==> is_space(s[before_space(s)]),
    decreases s.len(),
{
    lemma_before_space(s);
    if s.len() > 0 && !is_space(s[0]) {
        lemma_before_space_at(s.skip(1));
        let n = before_space(s.skip(1));
        assert forall|i: int| 0 <= i < n + 1 implies !is_space(#[trigger] s[i]) by {
            if i > 0 {
                assert(s[i] == s.skip(1)[i - 1]);
            }
        }
    }
}

proof fn lemma_before_space_is(s: Seq<char>, n: int)
    requires
        0 <= n <= s.len(),
        forall|i: int| 0 <= i < n ==> !is_space(#[trigger] s[i]),
        n < s.len() ==> is_space(s[n]),
    ensures
        before_space(s) == n,
{
    lemma_before_space(s);
    lemma_before_space_at(s);
    let m = before_space(s);
    if m < n {
        assert(!is_space(s[m]));
    }
    if n < m {
        assert(!is_space(s[n]));
    }
}

/// White space in front of a text adds no word.
pub proof fn leading_white_space_adds_no_word(c: char, s: Seq<char>)
    requires
        is_space(c),
    ensures
        words(seq![c] + s) == words(s),
{
    let t = seq![c] + s;
    assert(t.skip(1) =~= s);
    assert(trim_start(t) == trim_start(s));
}

/// A text without white space is one word, and an empty one is none.
pub proof fn a_text_without_white_space_is_one_word(s: Seq<char>)
    requires
        space_free(s),
    ensures
        s.len() > 0 ==> words(s) == seq![s],
        s.len() == 0 ==> words(s).len() == 0,
{
    if s.len() > 0 {
        assert(trim_start(s) == s);
        lemma_before_space_is(s, s.len() as int);
        assert(s.take(s.len() as int) =~= s);
        let rest = s.skip(s.len() as int);
        assert(trim_start(rest).len() == 0);
        assert(words(rest) =~= Seq::empty());
        assert(words(s) =~= seq![s]);
    }
}

/// White space parts words, and nothing else does: the words of two texts with white space
/// between are the words of the one and then those of the other.
pub proof fn white_space_parts_words(a: Seq<char>, c: char, b: Seq<char>)
    requires
        is_space(c),
    ensures
        words(a + seq![c] + b) == words(a) + words(b),
    decreases a.len(),
{
    let all = a + seq![c] + b;
    if a.len() == 0 {
        assert(all =~= seq![c] + b);
        leading_white_space_adds_no_word(c, b);
        assert(words(a) =~= Seq::empty());
        assert(words(a) + words(b) =~= words(b));
    } else if is_space(a[0]) {
        let rest = a.skip(1);
        assert(a =~= seq![a[0]] + rest);
        assert(all =~= seq![a[0]] + (rest + seq![c] + b));
        leading_white_space_adds_no_word(a[0], rest);
        leading_white_space_adds_no_word(a[0], rest + seq![c] + b);
        white_space_parts_words(rest, c, b);
    } else {
        let n = before_space(a);
        lemma_before_space(a);
        lemma_before_space_at(a);
        assert(trim_start(a) == a);
        assert(all[0] == a[0]);
        assert(trim_start(all) == all);
        assert forall|i: int| 0 <= i < n implies !is_space(#[trigger] all[i]) by {
            assert(all[i] == a[i]);
        }
        if n < a.len() {
            assert(all[n] == a[n]);
        } else {
            assert(all[n] == c);
        }
        lemma_before_space_is(all, n);
        let rest = a.skip(n);
        assert(all.take(n) =~= a.take(n));
        assert(all.skip(n) =~= rest + seq![c] + b);
        white_space_parts_words(rest, c, b);
        assert(words(all) =~= seq![a.take(n)] + (words(rest) + words(b)));
        assert(words(a) + words(b) =~= seq![a.take(n)] + (words(rest) + words(b)));
    }
}

/// Every word is a text of at least one character and without white space.
pub proof fn a_word_holds_no_white_space(s: Seq<char>, i: int)
    requires
        0 <= i < words(s).len(),
    ensures
        words(s)[i].len() > 0,
        space_free(words(s)[i]),
    decreases s.len(),
{
    let t = trim_start(s);
    lemma_trim_start(s);
    lemma_before_space(t);
    lemma_before_space_at(t);
    let n = before_space(t);
    if i > 0 {
        a_word_holds_no_white_space(t.skip(n), i - 1);
    }
}

// ---------------------------------------------------------------------------
// Splitting
// ---------------------------------------------------------------------------

proof fn lemma_before_char_is(s: Seq<char>, sep: char, n: int)
    requires
        0 <= n <= s.len(),
        forall|i: int| 0 <= i < n ==> #[trigger] s[i] != sep,
        n < s.len() ==> s[n] == sep,
    ensures
        before_char(s, sep) == n,
{
    lemma_before_char(s, sep);
    let m = before_char(s, sep);
    if m < n {
        assert(s[m] != sep);
    }
    if n < m {
        assert(s[n] != sep);
    }
}

/// A separator parts a text, and nothing else does: the pieces of two texts with a
/// separator between are the pieces of the one and then those of the other, and a text
/// without a separator is one piece.
pub proof fn a_separator_parts_a_text(a: Seq<char>, sep: char, b: Seq<char>)
    ensures
        split(a + seq![sep] + b, sep) == split(a, sep) + split(b, sep),
        sep_free(a, sep) ==> split(a, sep) == seq![a],
    decreases a.len(),
{
    let all = a + seq![sep] + b;
    let n = before_char(a, sep);
    lemma_before_char(a, sep);
    assert forall|i: int| 0 <= i < n implies #[trigger] all[i] != sep by {
        assert(all[i] == a[i]);
    }
    if n < a.len() {
        assert(all[n] == a[n]);
    } else {
        assert(all[n] == sep);
    }
    lemma_before_char_is(all, sep, n);
    assert(all.take(n) =~= a.take(n));
    if n < a.len() {
        let rest = a.skip(n + 1);
        a_separator_parts_a_text(rest, sep, b);
        assert(all.skip(n + 1) =~= rest + seq![sep] + b);
        assert(split(all, sep) =~= seq![a.take(n)] + (split(rest, sep) + split(b, sep)));
        assert(split(a, sep) + split(b, sep) =~= seq![a.take(n)] + (split(rest, sep) + split(
            b,
            sep,
        )));
        assert(a[n] == sep);
    } else {
        assert(a.take(n) =~= a);
        assert(all.skip(n + 1) =~= b);
        assert(split(all, sep) =~= split(a, sep) + split(b, sep));
    }
}

/// A text is cut at its first separator: what comes before and what comes behind, with
/// every later separator in it. A text without one is not cut.
pub proof fn a_text_is_cut_at_its_first_separator(a: Seq<char>, sep: char, b: Seq<char>)
    requires
        sep_free(a, sep),
    ensures
        split_once(a + seq![sep] + b, sep) == Some((a, b)),
        split_once(a, sep) is None,
{
    let all = a + seq![sep] + b;
    let n = a.len() as int;
    assert forall|i: int| 0 <= i < n implies #[trigger] all[i] != sep by {
        assert(all[i] == a[i]);
    }
    lemma_before_char_is(all, sep, n);
    lemma_before_char_is(a, sep, n);
    assert(all.take(n) =~= a);
    assert(all.skip(n + 1) =~= b);
}

// ---------------------------------------------------------------------------
// Replacing
// ---------------------------------------------------------------------------

/// A text without the pattern is left as it is.
pub proof fn what_does_not_occur_is_not_replaced(
    s: Seq<char>,
    pat: Seq<char>,
    with: Seq<char>,
)
    requires
        !contains(s, pat),
    ensures
        replaced(s, pat, with) == s,
    decreases s.len(),
{
    if s.len() > 0 && pat.len() > 0 {
        assert(s.skip(0) =~= s);
        assert(!starts_with(s.skip(0), pat));
        let rest = s.skip(1);
        assert(!contains(rest, pat)) by {
            if contains(rest, pat) {
                let i = choose|i: int| 0 <= i <= rest.len() && starts_with(rest.skip(i), pat);
                assert(rest.skip(i) =~= s.skip(i + 1));
                assert(starts_with(s.skip(i + 1), pat));
            }
        }
        what_does_not_occur_is_not_replaced(rest, pat, with);
        assert(seq![s[0]] + rest =~= s);
    }
}

/// The first occurrence of the pattern is replaced as a whole, what stands before it is
/// kept, and what comes behind is treated alike. What is put in is not looked at again.
pub proof fn each_occurrence_is_replaced(
    before: Seq<char>,
    pat: Seq<char>,
    behind: Seq<char>,
    with: Seq<char>,
)
    requires
        pat.len() > 0,
        forall|i: int|
            0 <= i < before.len() ==> !starts_with(
                #[trigger] (before + pat + behind).skip(i),
                pat,
            ),
    ensures
        replaced(before + pat + behind, pat, with) == before + with + replaced(behind, pat, with),
    decreases before.len(),
{
    let s = before + pat + behind;
    if before.len() == 0 {
        assert(s =~= pat + behind);
        assert(s.take(pat.len() as int) =~= pat);
        assert(s.skip(pat.len() as int) =~= behind);
        assert(before + with =~= with);
    } else {
        assert(!starts_with(s.skip(0), pat));
        assert(s.skip(0) =~= s);
        let rest = before.skip(1);
        let t = rest + pat + behind;
        assert(s.skip(1) =~= t);
        assert forall|i: int| 0 <= i < rest.len() implies !starts_with(
            #[trigger] t.skip(i),
            pat,
        ) by {
            assert(t.skip(i) =~= s.skip(i + 1));
            assert(!starts_with(s.skip(i + 1), pat));
        }
        each_occurrence_is_replaced(rest, pat, behind, with);
        assert(s[0] == before[0]);
        assert(seq![before[0]] + (rest + with + replaced(behind, pat, with)) =~= before + with
            + replaced(behind, pat, with));
    }
}

// ---------------------------------------------------------------------------
// Numbers
// ---------------------------------------------------------------------------

/// Digits are read by place: one more digit on the right counts ten times what stands
/// before it, and itself.
pub proof fn digits_are_read_by_place(s: Seq<char>, c: char)
    requires
        '0' <= c <= '9',
    ensures
        digits_value(Seq::<char>::empty()) == 0,
        digits_value(s.push(c)) == 10 * digits_value(s) + (c as nat - '0' as nat),
{
    assert(s.push(c).drop_last() =~= s);
}

/// A decimal text denotes its number, in digits alone and without a leading zero.
pub proof fn a_decimal_text_denotes_its_number(n: nat)
    ensures
        decimal(n).len() > 0,
        all_digits(decimal(n)),
        digits_value(decimal(n)) == n,
        n > 0 ==> decimal(n)[0] != '0',
    decreases n,
{
    lemma_decimal_digits(n);
    if n >= 10 {
        a_decimal_text_denotes_its_number(n / 10);
        assert(decimal(n)[0] == decimal(n / 10)[0]);
    }
}

/// A text is read as a number where it is digits and nothing else, behind at most one `+`,
/// and the number is not beyond the limit.
pub proof fn a_number_is_read_from_digits_alone(s: Seq<char>, max: nat)
    ensures
        s.len() > 0 && (forall|i: int| 0 <= i < s.len() ==> '0' <= #[trigger] s[i] <= '9')
            ==> parsed_number(s, max) == (if digits_value(s) <= max {
            Some(digits_value(s))
        } else {
            None
        }) && parsed_number(seq!['+'] + s, max) == parsed_number(s, max),
        parsed_number(Seq::<char>::empty(), max) is None,
        parsed_number(seq!['+'], max) is None,
        forall|i: int|
            0 <= i < s.len() && !('0' <= #[trigger] s[i] <= '9') && !(i == 0 && s[i] == '+')
                ==> parsed_number(s, max) is None,
{
    if s.len() > 0 && (forall|i: int| 0 <= i < s.len() ==> '0' <= #[trigger] s[i] <= '9') {
        assert(s[0] != '+');
        assert((seq!['+'] + s).skip(1) =~= s);
    }
    assert(seq!['+'].skip(1).len() == 0);
    assert forall|i: int|
        0 <= i < s.len() && !('0' <= #[trigger] s[i] <= '9') && !(i == 0 && s[i]
            == '+') implies parsed_number(s, max) is None by {
        if s[0] == '+' {
            assert(s.skip(1)[i - 1] == s[i]);
        }
    }
}

/// A text begins with a pattern where it is the pattern and more, and holds it where it is
/// the pattern between something and something.
pub proof fn a_pattern_is_found_where_it_stands(a: Seq<char>, pat: Seq<char>, b: Seq<char>)
    ensures
        starts_with(pat + b, pat),
        contains(a + pat + b, pat),
{
    assert((pat + b).take(pat.len() as int) =~= pat);
    let s = a + pat + b;
    assert(s.skip(a.len() as int) =~= pat + b);
    assert(starts_with(s.skip(a.len() as int), pat));
}

/// A pattern that is found stands there.
pub proof fn what_is_found_stands_there(s: Seq<char>, pat: Seq<char>)
    ensures
        starts_with(s, pat) ==> s == pat + s.skip(pat.len() as int),
        contains(s, pat) ==> exists|a: Seq<char>, b: Seq<char>| s == #[trigger] (a + pat + b),
{
    if starts_with(s, pat) {
        assert(s =~= pat + s.skip(pat.len() as int));
    }
    if contains(s, pat) {
        let i = choose|i: int| 0 <= i <= s.len() && starts_with(s.skip(i), pat);
        let t = s.skip(i);
        let a = s.take(i);
        let b = t.skip(pat.len() as int);
        assert(t =~= pat + b);
        assert(s =~= a + pat + b);
    }
}

/// The digits of a decimal text are the ten of ASCII.
pub proof fn a_decimal_text_is_of_ascii_digits(n: nat, i: int)
    requires
        0 <= i < decimal(n).len(),
    ensures
        '0' <= decimal(n)[i] <= '9',
{
    lemma_decimal_digits(n);
}

} // verus!
