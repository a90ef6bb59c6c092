//! Laws of the text operations.

use vstd::prelude::*;
use crate::text::{
    comes_before, decimal_text, find_text, first_with_prefix, insert_in_order, parse_number,
    replaced_last_but_one, split, trim_prefixes, trimmed,
};

verus! {

/// Pieces with a separator between each two of them.
pub open spec fn joined(pieces: Seq<Seq<char>>, sep: char) -> Seq<char>
    decreases pieces.len(),
{
    if pieces.len() == 0 {
        Seq::empty()
    } else if pieces.len() == 1 {
        pieces[0]
    } else {
        pieces[0] + seq![sep] + joined(pieces.drop_first(), sep)
    }
}

/// The pieces of a text give it back.
proof fn lemma_split(s: Seq<char>, sep: char)
    ensures
        joined(crate::text::split_on(s, sep), sep) == s,
        crate::text::split_on(s, sep).len() > 0,
        forall|i: int|
            0 <= i < crate::text::split_on(s, sep).len() ==> !(#[trigger] crate::text::split_on(
                s,
                sep,
            )[i]).contains(sep),
    decreases s.len(),
{
    let pieces = crate::text::split_on(s, sep);
    if s.contains(sep) {
        s.index_of_first_ensures(sep);
        let i = s.index_of_first(sep).unwrap();
        let rest = s.skip(i + 1);
        lemma_split(rest, sep);
        let more = crate::text::split_on(rest, sep);
        assert(pieces.drop_first() =~= more);
        assert(pieces[0] == s.take(i));
        assert(s =~= s.take(i) + seq![sep] + rest);
        assert forall|k: int| 0 <= k < pieces.len() implies !(#[trigger] pieces[k]).contains(
            sep,
        ) by {
            if k > 0 {
                assert(pieces[k] == more[k - 1]);
            } else {
                assert forall|j: int| 0 <= j < i implies s.take(i)[j] != sep by {
                    assert(s[j] != sep);
                }
            }
        }
    }
}

/// A text is split at every separator, and nowhere else: its pieces hold none, and with one
/// between each two of them they are the text again.
pub proof fn texts_are_split(s: &str, sep: char, r: Vec<&str>, i: int)
    requires
        call_ensures(split, (s, sep), r),
    ensures
        joined(r@.map_values(|x: &str| x@), sep) == s@,
        r@.len() > 0,
        0 <= i < r@.len() ==> !r@[i]@.contains(sep),
{
    lemma_split(s@, sep);
    let views = crate::text::views(r@);
    assert(views =~= r@.map_values(|x: &str| x@));
    assert(views.len() == r@.len());
    if 0 <= i < r@.len() {
        assert(views[i] == r@[i]@);
        assert(!crate::text::split_on(s@, sep)[i].contains(sep));
    }
}

/// Whether one text stands in another at a place.
pub open spec fn stands_at(s: Seq<char>, p: Seq<char>, i: int) -> bool {
    &&& 0 <= i
    &&& i + p.len() <= s.len()
    &&& forall|k: int| 0 <= k < p.len() ==> s[i + k] == #[trigger] p[k]
}

/// Where a text stands in another.
proof fn lemma_stands(s: Seq<char>, p: Seq<char>, i: int)
    ensures
        crate::text::occurs_at(s, p, i) <==> stands_at(s, p, i),
{
    if crate::text::occurs_at(s, p, i) {
        assert forall|k: int| 0 <= k < p.len() implies s[i + k] == #[trigger] p[k] by {
            assert(s.subrange(i, i + p.len())[k] == s[i + k]);
        }
    }
    if stands_at(s, p, i) {
        assert(s.subrange(i, i + p.len()) =~= p);
    }
}

/// The first place from another on.
proof fn lemma_find(s: Seq<char>, p: Seq<char>, from: int)
    requires
        0 <= from,
    ensures
        match crate::text::find_from(s, p, from) {
            Some(i) => from <= i && stands_at(s, p, i) && forall|j: int|
                from <= j < i ==> !#[trigger] stands_at(s, p, j),
            None => forall|j: int| from <= j ==> !#[trigger] stands_at(s, p, j),
        },
    decreases s.len() + 1 - from,
{
    if from + p.len() <= s.len() {
        lemma_stands(s, p, from);
        if !stands_at(s, p, from) {
            lemma_find(s, p, from + 1);
        }
    }
}

/// A text is found where it stands first.
pub proof fn texts_are_found(s: &str, p: &str, r: Option<usize>, j: int)
    requires
        call_ensures(find_text, (s, p), r),
    ensures
        match r {
            Some(i) => stands_at(s@, p@, i as int) && (0 <= j < i ==> !stands_at(s@, p@, j)),
            None => !stands_at(s@, p@, j),
        },
{
    lemma_find(s@, p@, 0);
}

/// Whether the number of a character is that of a white space in Unicode.
pub open spec fn blank(c: char) -> bool {
    let n = c as int;
    ||| 9 <= n <= 13
    ||| n == 32
    ||| n == 0x85
    ||| n == 0xa0
    ||| n == 0x1680
    ||| 0x2000 <= n <= 0x200a
    ||| n == 0x2028
    ||| n == 0x2029
    ||| n == 0x202f
    ||| n == 0x205f
    ||| n == 0x3000
}

/// Whether all characters of a text are white space.
pub open spec fn all_blank(s: Seq<char>) -> bool {
    forall|i: int| 0 <= i < s.len() ==> blank(#[trigger] s[i])
}

/// The white space in front of a text.
proof fn lemma_trim_start(s: Seq<char>)
    ensures
        ({
            let r = crate::text::trim_start(s);
            &&& r.len() <= s.len()
            &&& r == s.skip(s.len() - r.len())
            &&& all_blank(s.take(s.len() - r.len()))
            &&& r.len() > 0 ==> !blank(r[0])
        }),
    decreases s.len(),
{
    if s.len() > 0 && crate::text::is_white_space(s[0]) {
        let rest = s.skip(1);
        lemma_trim_start(rest);
        let r = crate::text::trim_start(rest);
        assert(r =~= s.skip(s.len() - r.len()));
        let front = s.take(s.len() - r.len());
        assert forall|i: int| 0 <= i < front.len() implies blank(#[trigger] front[i]) by {
            if i > 0 {
                assert(front[i] == rest.take(rest.len() - r.len())[i - 1]);
            }
        }
    } else {
        assert(s =~= s.skip(0));
    }
}

/// The white space behind a text.
proof fn lemma_trim_end(s: Seq<char>)
    ensures
        ({
            let r = crate::text::trim_end(s);
            &&& r.len() <= s.len()
            &&& r == s.take(r.len() as int)
            &&& all_blank(s.skip(r.len() as int))
            &&& r.len() > 0 ==> !blank(r[r.len() - 1])
        }),
    decreases s.len(),
{
    if s.len() > 0 && crate::text::is_white_space(s.last()) {
        let rest = s.drop_last();
        lemma_trim_end(rest);
        let r = crate::text::trim_end(rest);
        assert(r =~= s.take(r.len() as int));
        let back = s.skip(r.len() as int);
        assert forall|i: int| 0 <= i < back.len() implies blank(#[trigger] back[i]) by {
            if i < back.len() - 1 {
                assert(back[i] == rest.skip(r.len() as int)[i]);
            }
        }
    } else {
        assert(s =~= s.take(s.len() as int));
    }
}

/// Whether one text is another with white space at its ends.
pub open spec fn surrounds(s: Seq<char>, front: Seq<char>, r: Seq<char>, back: Seq<char>) -> bool {
    s == front + r + back && all_blank(front) && all_blank(back)
}

/// A text is trimmed of the white space at its two ends, all of it and nothing else.
pub proof fn texts_are_trimmed(s: &str, r: &str)
    requires
        call_ensures(trimmed, (s,), r),
    ensures
        exists|front: Seq<char>, back: Seq<char>| #[trigger] surrounds(s@, front, r@, back),
        r@.len() > 0 ==> !blank(r@[0]) && !blank(r@[r@.len() - 1]),
{
    let start = crate::text::trim_start(s@);
    lemma_trim_start(s@);
    lemma_trim_end(start);
    let front = s@.take(s@.len() - start.len());
    let back = start.skip(r@.len() as int);
    assert(s@ =~= front + r@ + back);
    assert(surrounds(s@, front, r@, back));
}

/// A number is written with its digits in their order: the last one is its remainder by ten,
/// and those before it write its tenth part.
pub proof fn numbers_are_written(n: u64, r: String, tenth: String)
    requires
        call_ensures(decimal_text, (n,), r),
        call_ensures(decimal_text, (n / 10,), tenth),
    ensures
        n < 10 ==> r@.len() == 1 && r@[0] as int == 48 + n,
        n >= 10 ==> r@.len() == tenth@.len() + 1 && r@.take(tenth@.len() as int) == tenth@ && r@[
        r@.len() - 1] as int == 48 + n % 10,
{
    if n >= 10 {
        assert(r@.take(tenth@.len() as int) =~= tenth@);
    }
}

/// What was written is read as the number that it was, with or without a plus sign in front
/// of it, and refused where it is too large.
pub proof fn written_numbers_are_read(
    n: u64,
    written: String,
    s: &str,
    max: u32,
    r: Option<u32>,
)
    requires
        call_ensures(decimal_text, (n,), written),
        call_ensures(parse_number, (s, max), r),
        s@ == written@ || s@ == seq!['+'] + written@,
    ensures
        n <= max ==> r == Some(n as u32),
        n > max ==> r is None,
{
    crate::text::lemma_decimal_value(n as nat);
    lemma_first_digit(n as nat);
    if s@ == seq!['+'] + written@ {
        assert(s@.skip(1) =~= written@);
    }
}

/// A number begins with a digit.
proof fn lemma_first_digit(n: nat)
    ensures
        crate::text::decimal(n).len() > 0,
        crate::text::decimal(n)[0] != '+',
    decreases n,
{
    if n >= 10 {
        lemma_first_digit(n / 10);
        assert(crate::text::decimal(n)[0] == crate::text::decimal(n / 10)[0]);
    }
}

/// Whether a character is a decimal digit.
pub open spec fn is_digit(c: char) -> bool {
    48 <= c as int <= 57
}

/// Only digits make a number.
proof fn lemma_only_digits(s: Seq<char>)
    ensures
        crate::text::digits_value(s) is Some <==> forall|i: int|
            0 <= i < s.len() ==> is_digit(#[trigger] s[i]),
    decreases s.len(),
{
    if s.len() > 0 {
        let less = s.drop_last();
        lemma_only_digits(less);
        if crate::text::digits_value(s) is Some {
            assert forall|i: int| 0 <= i < s.len() implies is_digit(#[trigger] s[i]) by {
                if i < s.len() - 1 {
                    assert(less[i] == s[i]);
                }
            }
        }
        if forall|i: int| 0 <= i < s.len() ==> is_digit(#[trigger] s[i]) {
            assert forall|i: int| 0 <= i < less.len() implies is_digit(#[trigger] less[i]) by {
                assert(less[i] == s[i]);
            }
            assert(is_digit(s[s.len() - 1]));
        }
    }
}

/// Nothing but digits is read as a number, after at most one plus sign, and never nothing.
pub proof fn other_texts_are_no_numbers(s: &str, max: u32, r: Option<u32>, i: int)
    requires
        call_ensures(parse_number, (s, max), r),
    ensures
        s@.len() == 0 ==> r is None,
        s@ == seq!['+'] ==> r is None,
        0 <= i < s@.len() && !is_digit(s@[i]) && (i > 0 || s@[i] != '+') ==> r is None,
{
    if s@.len() > 0 && s@[0] == '+' {
        let digits = s@.skip(1);
        lemma_only_digits(digits);
        if 0 < i < s@.len() {
            assert(digits[i - 1] == s@[i]);
        }
    } else {
        lemma_only_digits(s@);
    }
}

/// Some copies of a text.
pub open spec fn copies(p: Seq<char>, n: nat) -> Seq<char>
    decreases n,
{
    if n == 0 {
        Seq::empty()
    } else {
        p + copies(p, (n - 1) as nat)
    }
}

/// Whether one text is another behind some copies of a third.
pub open spec fn follows_copies(s: Seq<char>, p: Seq<char>, n: nat, r: Seq<char>) -> bool {
    s == copies(p, n) + r
}

/// The copies that a text begins with.
proof fn lemma_copies(s: Seq<char>, p: Seq<char>) -> (n: nat)
    ensures
        follows_copies(s, p, n, crate::text::strip_copies(s, p)),
        p.len() > 0 ==> !p.is_prefix_of(crate::text::strip_copies(s, p)),
    decreases s.len(),
{
    if p.len() > 0 && p.is_prefix_of(s) {
        let rest = s.skip(p.len() as int);
        let n = lemma_copies(rest, p);
        let r = crate::text::strip_copies(rest, p);
        assert(s =~= p + rest);
        assert(copies(p, n + 1) =~= p + copies(p, n));
        assert(s =~= copies(p, n + 1) + r);
        n + 1
    } else {
        assert(s =~= copies(p, 0) + s);
        0
    }
}

/// All copies of a text that another begins with are taken off, and nothing else.
pub proof fn copies_are_taken_off(s: &str, p: &str, r: &str)
    requires
        call_ensures(trim_prefixes, (s, p), r),
    ensures
        exists|n: nat| #[trigger] follows_copies(s@, p@, n, r@),
        p@.len() > 0 ==> !p@.is_prefix_of(r@),
{
    let n = lemma_copies(s@, p@);
    assert(follows_copies(s@, p@, n, r@));
}

/// The last but one of the pieces of a text is replaced, and all others stay.
pub proof fn last_pieces_but_one_are_replaced(
    s: &str,
    sep: char,
    to: &str,
    r: String,
    head: Seq<char>,
    piece: Seq<char>,
    last: Seq<char>,
)
    requires
        call_ensures(replaced_last_but_one, (s, sep, to), r),
        s@ == head + seq![sep] + piece + seq![sep] + last,
        !piece.contains(sep),
        !last.contains(sep),
    ensures
        r@ == head + seq![sep] + to@ + seq![sep] + last,
{
    crate::text::piece_replaced(head, piece, last, sep, to@);
    assert(s@ =~= head.push(sep) + piece.push(sep) + last);
    assert(r@ =~= head + seq![sep] + to@ + seq![sep] + last);
}

/// The rest of the first piece with a prefix is found.
pub proof fn prefixed_pieces_are_found(
    pieces: Vec<&str>,
    prefix: &str,
    r: Option<&str>,
    i: int,
)
    requires
        call_ensures(first_with_prefix, (&pieces, prefix), r),
        0 <= i < pieces@.len(),
        forall|j: int| 0 <= j < i ==> !prefix@.is_prefix_of((#[trigger] pieces@[j])@),
    ensures
        prefix@.is_prefix_of(pieces@[i]@) ==> (r matches Some(rest) && pieces@[i]@ == prefix@
            + rest@),
        i == pieces@.len() - 1 && !prefix@.is_prefix_of(pieces@[i]@) ==> r is None,
{
    let views = crate::text::views(pieces@);
    crate::laws::sessions::lemma_parameter(views, prefix@);
    assert(views.len() == pieces@.len());
    assert(views[i] == pieces@[i]@);
    let found = crate::text::first_after_prefix(views, prefix@);
    if let Some(rest) = found {
        let k = choose|k: int|
            0 <= k < views.len() && (#[trigger] views[k]) == prefix@ + rest && forall|j: int|
                0 <= j < k ==> !prefix@.is_prefix_of(#[trigger] views[j]);
        assert((prefix@ + rest).subrange(0, prefix@.len() as int) =~= prefix@);
        assert(prefix@.is_prefix_of(views[k]));
        assert(views[k] == pieces@[k]@);
        assert(k >= i);
        if k > i {
            assert(!prefix@.is_prefix_of(views[i]));
        }
    } else {
        assert(!prefix@.is_prefix_of(views[i]));
    }
}

/// Whether two texts first differ at a place, where one ends or has the smaller character.
pub open spec fn differ_at(a: Seq<char>, b: Seq<char>, n: int) -> bool {
    &&& 0 <= n <= a.len()
    &&& n < b.len()
    &&& a.take(n) == b.take(n)
    &&& n == a.len() || a[n] < b[n]
}

/// The order of two texts.
proof fn lemma_before(a: Seq<char>, b: Seq<char>)
    ensures
        crate::text::before(a, b) <==> exists|n: int| #[trigger] differ_at(a, b, n),
    decreases a.len(),
{
    if b.len() > 0 && a.len() > 0 {
        let x = a.drop_first();
        let y = b.drop_first();
        lemma_before(x, y);
        if crate::text::before(a, b) {
            if a[0] != b[0] {
                assert(a.take(0) =~= b.take(0));
                assert(differ_at(a, b, 0));
            } else {
                let n = choose|n: int| #[trigger] differ_at(x, y, n);
                let one = a.take(n + 1);
                let two = b.take(n + 1);
                assert forall|i: int| 0 <= i < n + 1 implies #[trigger] one[i] == two[i] by {
                    if i > 0 {
                        assert(x.take(n)[i - 1] == y.take(n)[i - 1]);
                    }
                }
                assert(one =~= two);
                assert(differ_at(a, b, n + 1));
            }
        }
        if exists|n: int| #[trigger] differ_at(a, b, n) {
            let n = choose|n: int| #[trigger] differ_at(a, b, n);
            if n > 0 {
                assert(a.take(n)[0] == b.take(n)[0]);
                let one = x.take(n - 1);
                let two = y.take(n - 1);
                assert forall|i: int| 0 <= i < n - 1 implies #[trigger] one[i] == two[i] by {
                    assert(a.take(n)[i + 1] == b.take(n)[i + 1]);
                }
                assert(one =~= two);
                assert(differ_at(x, y, n - 1));
            }
        }
    } else if b.len() > 0 {
        assert(a.take(0) =~= b.take(0));
        assert(differ_at(a, b, 0));
    }
}

/// One text comes before another where it ends first, or has the smaller character at the
/// first place where they differ.
pub proof fn texts_are_ordered(a: &str, b: &str, r: bool)
    requires
        call_ensures(comes_before, (a, b), r),
    ensures
        r <==> exists|n: int| #[trigger] differ_at(a@, b@, n),
{
    lemma_before(a@, b@);
}

/// A text that is put among others that stand in order is there, with all of them and nothing
/// else, and they stand in order again.
pub proof fn texts_are_put_in_order(texts: &mut Vec<String>, t: &str, x: Seq<char>, i: int, j: int)
    requires
        call_ensures(insert_in_order, (texts, t), ()),
    ensures
        (exists|k: int| 0 <= k < final(texts)@.len() && (#[trigger] final(texts)@[k])@ == x) <==> (
        exists|k: int| 0 <= k < old(texts)@.len() && (#[trigger] old(texts)@[k])@ == x) || x == t@,
        0 <= i < j < final(texts)@.len() ==> exists|n: int| #[trigger] differ_at(
            final(texts)@[i]@,
            final(texts)@[j]@,
            n,
        ),
{
    assert(crate::text::listed(final(texts)@, x) <==> crate::text::listed(old(texts)@, x) || x
        == t@);
    if 0 <= i < j < final(texts)@.len() {
        lemma_before(final(texts)@[i]@, final(texts)@[j]@);
    }
}

} // verus!
