//! Text operations, each stated over the characters of a string.

use vstd::prelude::*;

verus! {

/// Whether `p` stands in `s` at position `i`.
pub open spec fn occurs_at(s: Seq<char>, p: Seq<char>, i: int) -> bool {
    0 <= i && i + p.len() <= s.len() && s.subrange(i, i + p.len()) == p
}

/// The first position at or after `i` at which `p` stands in `s`.
pub open spec fn find_from(s: Seq<char>, p: Seq<char>, i: int) -> Option<int>
    decreases s.len() + 1 - i,
{
    if i < 0 || i + p.len() > s.len() {
        None
    } else if occurs_at(s, p, i) {
        Some(i)
    } else {
        find_from(s, p, i + 1)
    }
}

/// The first position at which `p` stands in `s`.
pub open spec fn find(s: Seq<char>, p: Seq<char>) -> Option<int> {
    find_from(s, p, 0)
}

/// The pieces of `s` between the occurrences of `sep`.
pub open spec fn split_on(s: Seq<char>, sep: char) -> Seq<Seq<char>>
    decreases s.len(),
{
    if !s.contains(sep) {
        seq![s]
    } else {
        let i = s.index_of_first(sep).unwrap();
        if 0 <= i < s.len() {
            seq![s.take(i)] + split_on(s.skip(i + 1), sep)
        } else {
            seq![s]
        }
    }
}

/// The rest of the first piece that begins with `prefix`.
pub open spec fn first_after_prefix(pieces: Seq<Seq<char>>, prefix: Seq<char>) -> Option<Seq<char>>
    decreases pieces.len(),
{
    if pieces.len() == 0 {
        None
    } else if prefix.is_prefix_of(pieces[0]) {
        Some(pieces[0].skip(prefix.len() as int))
    } else {
        first_after_prefix(pieces.drop_first(), prefix)
    }
}

/// `s` without any of the copies of `p` that it begins with.
pub open spec fn strip_copies(s: Seq<char>, p: Seq<char>) -> Seq<char>
    decreases s.len(),
{
    if p.len() > 0 && p.is_prefix_of(s) {
        strip_copies(s.skip(p.len() as int), p)
    } else {
        s
    }
}

/// `s` without the copies of `c` that it ends in.
pub open spec fn strip_end(s: Seq<char>, c: char) -> Seq<char>
    decreases s.len(),
{
    if s.len() > 0 && s.last() == c {
        strip_end(s.drop_last(), c)
    } else {
        s
    }
}

/// `s` with the last but one of the pieces between the occurrences of `sep` replaced by `to`.
pub open spec fn replace_last_but_one(s: Seq<char>, sep: char, to: Seq<char>) -> Seq<char> {
    match s.index_of_last(sep) {
        Some(j) => match s.take(j).index_of_last(sep) {
            Some(i) => s.take(i + 1) + to + s.skip(j),
            None => to + s.skip(j),
        },
        None => s,
    }
}

/// The pieces around the one that is replaced stay as they were.
pub proof fn piece_replaced(
    head: Seq<char>,
    piece: Seq<char>,
    last: Seq<char>,
    sep: char,
    to: Seq<char>,
)
    requires
        !piece.contains(sep),
        !last.contains(sep),
    ensures
        replace_last_but_one(head.push(sep) + piece.push(sep) + last, sep, to) == head.push(sep)
            + to.push(sep) + last,
{
    let s = head.push(sep) + piece.push(sep) + last;
    let i = head.len() as int;
    let j = i + 1 + piece.len();
    s.index_of_last_ensures(sep);
    assert(s[j] == sep);
    let found = s.index_of_last(sep).unwrap();
    if found > j {
        assert(s[found] == last[found - j - 1]);
    }
    let front = s.take(j);
    front.index_of_last_ensures(sep);
    assert(front[i] == sep);
    let earlier = front.index_of_last(sep).unwrap();
    if earlier > i {
        assert(front[earlier] == piece[earlier - i - 1]);
    }
    assert(s.take(i + 1) + to + s.skip(j) =~= head.push(sep) + to.push(sep) + last);
}

/// The characters with the Unicode property `White_Space`.
pub open spec fn is_white_space(c: char) -> bool {
    ||| '\u{9}' <= c <= '\u{d}'
    ||| c == ' '
    ||| c == '\u{85}'
    ||| c == '\u{a0}'
    ||| c == '\u{1680}'
    ||| '\u{2000}' <= c <= '\u{200a}'
    ||| c == '\u{2028}'
    ||| c == '\u{2029}'
    ||| c == '\u{202f}'
    ||| c == '\u{205f}'
    ||| c == '\u{3000}'
}

/// `s` without the white space that it begins with.
pub open spec fn trim_start(s: Seq<char>) -> Seq<char>
    decreases s.len(),
{
    if s.len() > 0 && is_white_space(s[0]) {
        trim_start(s.skip(1))
    } else {
        s
    }
}

/// `s` without the white space that it ends in.
pub open spec fn trim_end(s: Seq<char>) -> Seq<char>
    decreases s.len(),
{
    if s.len() > 0 && is_white_space(s.last()) {
        trim_end(s.drop_last())
    } else {
        s
    }
}

/// `s` without the white space at its two ends.
pub open spec fn trim(s: Seq<char>) -> Seq<char> {
    trim_end(trim_start(s))
}

/// The digit that `c` stands for.
pub open spec fn digit_value(c: char) -> Option<nat> {
    if '0' <= c <= '9' {
        Some((c as int - '0' as int) as nat)
    } else {
        None
    }
}

/// The number that a run of decimal digits stands for.
pub open spec fn digits_value(s: Seq<char>) -> Option<nat>
    decreases s.len(),
{
    if s.len() == 0 {
        Some(0)
    } else {
        match (digits_value(s.drop_last()), digit_value(s.last())) {
            (Some(n), Some(d)) => Some(10 * n + d),
            _ => None,
        }
    }
}

/// The number that `s` writes: decimal digits, after an optional plus sign.
pub open spec fn number_value(s: Seq<char>) -> Option<nat> {
    let digits = if s.len() > 0 && s[0] == '+' {
        s.skip(1)
    } else {
        s
    };
    if digits.len() == 0 {
        None
    } else {
        digits_value(digits)
    }
}

/// The decimal digits of `n`.
pub open spec fn decimal(n: nat) -> Seq<char>
    decreases n,
{
    if n < 10 {
        seq![(n + '0' as int) as char]
    } else {
        decimal(n / 10).push((n % 10 + '0' as int) as char)
    }
}

/// What stands in a text stands at the same place in a longer one.
pub proof fn lemma_find_longer(s: Seq<char>, t: Seq<char>, p: Seq<char>, i: int)
    requires
        find_from(s, p, i) is Some,
    ensures
        find_from(s + t, p, i) == find_from(s, p, i),
    decreases s.len() + 1 - i,
{
    assert((s + t).subrange(i, i + p.len()) =~= s.subrange(i, i + p.len()));
    if !occurs_at(s, p, i) {
        lemma_find_longer(s, t, p, i + 1);
    }
}

/// A text without a separator, and one with a piece before it, split at the separator.
pub proof fn lemma_split_front(head: Seq<char>, tail: Seq<char>, sep: char)
    requires
        !head.contains(sep),
    ensures
        split_on(head + seq![sep] + tail, sep) == seq![head] + split_on(tail, sep),
        (head + seq![sep] + tail).index_of_first(sep) == Some(head.len() as int),
{
    let s = head + seq![sep] + tail;
    assert(s[head.len() as int] == sep);
    s.index_of_first_ensures(sep);
    let i = s.index_of_first(sep).unwrap();
    if i < head.len() {
        assert(s[i] == head[i]);
        assert(head.contains(sep));
    }
    assert(i == head.len());
    assert(s.take(i) =~= head);
    assert(s.skip(i + 1) =~= tail);
}

/// The decimal digits of a number stand for it.
pub proof fn lemma_decimal_value(n: nat)
    ensures
        digits_value(decimal(n)) == Some(n),
        decimal(n).len() > 0,
    decreases n,
{
    if n < 10 {
        let s = decimal(n);
        assert(s.drop_last() =~= Seq::empty());
        assert(digits_value(s.drop_last()) == Some(0nat));
        assert(s.last() as int - '0' as int == n);
    } else {
        lemma_decimal_value(n / 10);
        let s = decimal(n);
        assert(s.drop_last() =~= decimal(n / 10));
        assert(s.last() as int - '0' as int == n % 10);
    }
}

/// Whether `a` comes before `b` in the order of their characters.
pub open spec fn before(a: Seq<char>, b: Seq<char>) -> bool
    decreases a.len(),
{
    if b.len() == 0 {
        false
    } else if a.len() == 0 {
        true
    } else if a[0] != b[0] {
        a[0] < b[0]
    } else {
        before(a.drop_first(), b.drop_first())
    }
}

/// Of two texts that differ one comes before the other; none comes before itself.
pub proof fn lemma_before_total(a: Seq<char>, b: Seq<char>)
    ensures
        a == b ==> !before(a, b),
        a != b ==> before(a, b) || before(b, a),
        !(before(a, b) && before(b, a)),
    decreases a.len(),
{
    if a.len() > 0 && b.len() > 0 && a[0] == b[0] {
        lemma_before_total(a.drop_first(), b.drop_first());
        if a.drop_first() == b.drop_first() {
            assert(a =~= b) by {
                assert forall|i: int| 0 <= i < a.len() implies a[i] == b[i] by {
                    if i > 0 {
                        assert(a.drop_first()[i - 1] == b.drop_first()[i - 1]);
                    }
                }
                assert(a.drop_first().len() == b.drop_first().len());
            }
        }
    } else if a.len() == 0 && b.len() == 0 {
        assert(a =~= b);
    }
}

/// What comes before a text comes before all that it comes before.
pub proof fn lemma_before_chain(a: Seq<char>, b: Seq<char>, c: Seq<char>)
    requires
        before(a, b),
        before(b, c),
    ensures
        before(a, c),
    decreases a.len(),
{
    if a.len() > 0 && b.len() > 0 && c.len() > 0 && a[0] == b[0] && b[0] == c[0] {
        lemma_before_chain(a.drop_first(), b.drop_first(), c.drop_first());
    }
}

/// Whether two strings hold the same characters.
pub fn same(a: &str, b: &str) -> (r: bool)
    ensures
        r == (a@ == b@),
{
    a.to_owned() == b.to_owned()
}

/// Whether `s` begins with `p`.
pub fn has_prefix(s: &str, p: &str) -> (r: bool)
    ensures
        r == p@.is_prefix_of(s@),
{
    let n = p.unicode_len();
    if s.unicode_len() < n {
        return false;
    }
    same(s.substring_char(0, n), p)
}

/// What follows `p` in `s`, where `s` begins with it.
pub fn strip_prefix<'a>(s: &'a str, p: &str) -> (r: Option<&'a str>)
    ensures
        r is Some <==> p@.is_prefix_of(s@),
        r matches Some(rest) ==> rest@ == s@.skip(p@.len() as int),
{
    if has_prefix(s, p) {
        Some(s.substring_char(p.unicode_len(), s.unicode_len()))
    } else {
        None
    }
}

/// `s` without any of the copies of `p` that it begins with.
pub fn trim_prefixes<'a>(s: &'a str, p: &str) -> (r: &'a str)
    ensures
        r@ == strip_copies(s@, p@),
{
    let n = p.unicode_len();
    let mut rest: &'a str = s;
    if n == 0 {
        return rest;
    }
    while has_prefix(rest, p)
        invariant
            n == p@.len(),
            n > 0,
            strip_copies(rest@, p@) == strip_copies(s@, p@),
        decreases rest@.len(),
    {
        rest = rest.substring_char(n, rest.unicode_len());
    }
    rest
}

/// `s` without the copies of `c` that it ends in.
pub fn trim_end_char<'a>(s: &'a str, c: char) -> (r: &'a str)
    ensures
        r@ == strip_end(s@, c),
{
    let mut n = s.unicode_len();
    assert(s@.take(n as int) == s@);
    while n > 0 && s.get_char(n - 1) == c
        invariant
            n <= s@.len(),
            strip_end(s@.take(n as int), c) == strip_end(s@, c),
        decreases n,
    {
        assert(s@.take(n as int).drop_last() == s@.take(n - 1));
        n = n - 1;
    }
    s.substring_char(0, n)
}

/// Whether `c` is white space.
fn white_space(c: char) -> (r: bool)
    ensures
        r == is_white_space(c),
{
    ('\u{9}' <= c && c <= '\u{d}') || c == ' ' || c == '\u{85}' || c == '\u{a0}' || c == '\u{1680}'
        || ('\u{2000}' <= c && c <= '\u{200a}') || c == '\u{2028}' || c == '\u{2029}' || c == '\u{202f}'
        || c == '\u{205f}' || c == '\u{3000}'
}

/// `s` without the white space at its two ends.
pub fn trimmed<'a>(s: &'a str) -> (r: &'a str)
    ensures
        r@ == trim(s@),
{
    let len = s.unicode_len();
    let mut i: usize = 0;
    assert(s@.skip(0) == s@);
    while i < len && white_space(s.get_char(i))
        invariant
            i <= len == s@.len(),
            trim_start(s@.skip(i as int)) == trim_start(s@),
        decreases len - i,
    {
        assert(s@.skip(i as int).skip(1) == s@.skip(i + 1));
        i = i + 1;
    }
    let ghost rest = s@.skip(i as int);
    assert(rest == trim_start(s@));
    let mut n: usize = len;
    assert(s@.subrange(i as int, n as int) == rest);
    while n > i && white_space(s.get_char(n - 1))
        invariant
            i <= n <= len == s@.len(),
            trim_end(s@.subrange(i as int, n as int)) == trim_end(rest),
        decreases n,
    {
        assert(s@.subrange(i as int, n as int).drop_last() == s@.subrange(i as int, n - 1));
        n = n - 1;
    }
    s.substring_char(i, n)
}

/// The first position at which `p` stands in `s`.
pub fn find_text(s: &str, p: &str) -> (r: Option<usize>)
    ensures
        r is Some <==> find(s@, p@) is Some,
        r matches Some(i) ==> find(s@, p@) == Some(i as int) && i + p@.len() <= s@.len(),
{
    let n = s.unicode_len();
    let m = p.unicode_len();
    if m > n {
        return None;
    }
    let mut i: usize = 0;
    while i <= n - m
        invariant
            n == s@.len(),
            m == p@.len(),
            m <= n,
            i <= n - m + 1,
            find_from(s@, p@, i as int) == find(s@, p@),
        decreases n - m + 1 - i,
    {
        if same(s.substring_char(i, i + m), p) {
            return Some(i);
        }
        if i == n - m {
            assert(find_from(s@, p@, i + 1) is None);
            return None;
        }
        i = i + 1;
    }
    None
}

/// The first position of `c` in `s`.
pub fn find_char(s: &str, c: char) -> (r: Option<usize>)
    ensures
        r is Some <==> s@.contains(c),
        r matches Some(i) ==> i < s@.len() && s@[i as int] == c && s@.index_of_first(c) == Some(i as int),
        r matches Some(i) ==> !s@.take(i as int).contains(c),
{
    let n = s.unicode_len();
    let mut i: usize = 0;
    while i < n
        invariant
            i <= n == s@.len(),
            forall|j: int| 0 <= j < i ==> s@[j] != c,
        decreases n - i,
    {
        if s.get_char(i) == c {
            proof {
                s@.index_of_first_ensures(c);
            }
            return Some(i);
        }
        i = i + 1;
    }
    None
}

/// The views of a list of strings.
pub open spec fn views(v: Seq<&str>) -> Seq<Seq<char>> {
    v.map_values(|x: &str| x@)
}

/// The pieces of `s` between the occurrences of `sep`.
pub fn split<'a>(s: &'a str, sep: char) -> (r: Vec<&'a str>)
    ensures
        views(r@) == split_on(s@, sep),
{
    let mut out: Vec<&'a str> = Vec::new();
    let mut rest: &'a str = s;
    assert(views(out@) + split_on(rest@, sep) == split_on(s@, sep));
    loop
        invariant
            views(out@) + split_on(rest@, sep) == split_on(s@, sep),
        decreases rest@.len(),
    {
        let len = rest.unicode_len();
        match find_char(rest, sep) {
            Some(i) => {
                let ghost before = views(out@);
                let head: &'a str = rest.substring_char(0, i);
                let tail: &'a str = rest.substring_char(i + 1, len);
                assert(head@ == rest@.take(i as int));
                assert(tail@ == rest@.skip(i + 1));
                out.push(head);
                assert(views(out@) == before.push(head@));
                assert(before.push(head@) + split_on(tail@, sep) == before + (seq![head@] + split_on(tail@, sep)));
                rest = tail;
            },
            None => {
                let ghost before = views(out@);
                out.push(rest);
                assert(views(out@) == before.push(rest@));
                assert(before.push(rest@) == before + seq![rest@]);
                return out;
            },
        }
    }
}

/// The rest of the first piece that begins with `prefix`.
pub fn first_with_prefix<'a>(pieces: &Vec<&'a str>, prefix: &str) -> (r: Option<&'a str>)
    ensures
        r is Some <==> first_after_prefix(views(pieces@), prefix@) is Some,
        r matches Some(x) ==> first_after_prefix(views(pieces@), prefix@) == Some(x@),
{
    let ghost all = views(pieces@);
    let mut i: usize = 0;
    assert(all.skip(0) == all);
    while i < pieces.len()
        invariant
            i <= pieces@.len(),
            all == views(pieces@),
            first_after_prefix(all.skip(i as int), prefix@) == first_after_prefix(all, prefix@),
        decreases pieces@.len() - i,
    {
        assert(all.skip(i as int)[0] == pieces@[i as int]@);
        match strip_prefix(pieces[i], prefix) {
            Some(rest) => {
                return Some(rest);
            },
            None => {
                assert(all.skip(i as int).drop_first() == all.skip(i + 1));
                i = i + 1;
            },
        }
    }
    None
}

/// The last position of `c` in `s`.
pub fn find_last_char(s: &str, c: char) -> (r: Option<usize>)
    ensures
        match r {
            Some(i) => i < s@.len() && s@.index_of_last(c) == Some(i as int),
            None => s@.index_of_last(c) is None,
        },
{
    proof {
        s@.index_of_last_ensures(c);
    }
    let mut i: usize = s.unicode_len();
    while i > 0
        invariant
            i <= s@.len(),
            forall|j: int| i <= j < s@.len() ==> s@[j] != c,
            s@.index_of_last(c) matches Some(k) ==> 0 <= k < s@.len() && s@[k] == c && forall|j: int|
                k < j < s@.len() ==> s@[j] != c,
            s@.index_of_last(c) is None ==> !s@.contains(c),
        decreases i,
    {
        i = i - 1;
        if s.get_char(i) == c {
            assert(s@.contains(c));
            return Some(i);
        }
    }
    None
}

/// `s` with the last but one of the pieces between the occurrences of `sep` replaced by `to`.
pub fn replaced_last_but_one(s: &str, sep: char, to: &str) -> (r: String)
    ensures
        r@ == replace_last_but_one(s@, sep, to@),
{
    let len = s.unicode_len();
    match find_last_char(s, sep) {
        Some(j) => {
            let front = s.substring_char(0, j);
            let tail = s.substring_char(j, len);
            assert(front@ == s@.take(j as int));
            assert(tail@ == s@.skip(j as int));
            match find_last_char(front, sep) {
                Some(i) => {
                    let head = s.substring_char(0, i + 1);
                    assert(head@ == s@.take(i + 1));
                    head.to_owned().concat(to).concat(tail)
                },
                None => to.to_owned().concat(tail),
            }
        },
        None => s.to_owned(),
    }
}

/// Whether texts stand in order, none of them twice.
pub open spec fn in_order(texts: Seq<String>) -> bool {
    forall|i: int, j: int|
        0 <= i < j < texts.len() ==> before(
            (#[trigger] texts[i])@,
            (#[trigger] texts[j])@,
        )
}

/// Whether a text is among others.
pub open spec fn listed(texts: Seq<String>, t: Seq<char>) -> bool {
    exists|i: int| 0 <= i < texts.len() && (#[trigger] texts[i])@ == t
}

/// Puts a text in its place among others, unless it is there.
pub fn insert_in_order(texts: &mut Vec<String>, t: &str)
    requires
        in_order(old(texts)@),
    ensures
        in_order(final(texts)@),
        forall|x: Seq<char>| #[trigger]
            listed(final(texts)@, x) <==> listed(old(texts)@, x) || x == t@,
{
    let ghost start = texts@;
    let mut i: usize = 0;
    while i < texts.len() && comes_before(texts[i].as_str(), t)
        invariant
            i <= texts@.len(),
            texts@ == start,
            forall|j: int| 0 <= j < i ==> before((#[trigger] texts@[j])@, t@),
        decreases texts@.len() - i,
    {
        i = i + 1;
    }
    if i < texts.len() && same(texts[i].as_str(), t) {
        assert(listed(start, t@));
        return;
    }
    texts.insert(i, t.to_owned());
    proof {
        let after = texts@;
        assert(after[i as int]@ == t@);
        if i < start.len() {
            lemma_before_total(start[i as int]@, t@);
        }
        assert forall|j: int, k: int| 0 <= j < k < after.len() implies before(
            (#[trigger] after[j])@,
            (#[trigger] after[k])@,
        ) by {
            if k < i {
                assert(after[j] == start[j] && after[k] == start[k]);
            } else if k == i {
                assert(after[j] == start[j]);
            } else {
                assert(after[k] == start[k - 1]);
                if j == i {
                    if k - 1 > i {
                        lemma_before_chain(
                            t@,
                            start[i as int]@,
                            start[k - 1]@,
                        );
                    }
                } else if j < i {
                    assert(after[j] == start[j]);
                } else {
                    assert(after[j] == start[j - 1]);
                }
            }
        }
        assert forall|x: Seq<char>| #[trigger]
            listed(after, x) <==> listed(start, x) || x == t@ by {
            if listed(start, x) {
                let j = choose|j: int| 0 <= j < start.len() && (#[trigger] start[j])@ == x;
                let k = if j < i {
                    j
                } else {
                    j + 1
                };
                assert(after[k]@ == x);
            }
            if listed(after, x) {
                let k = choose|k: int| 0 <= k < after.len() && (#[trigger] after[k])@ == x;
                if k < i {
                    assert(start[k]@ == x);
                } else if k > i {
                    assert(start[k - 1]@ == x);
                }
            }
        }
    }
}

/// The number that `s` writes, where it is one of at most `max`.
pub fn parse_number(s: &str, max: u32) -> (r: Option<u32>)
    ensures
        r is Some <==> (number_value(s@) matches Some(n) && n <= max),
        r matches Some(n) ==> number_value(s@) == Some(n as nat),
{
    let len = s.unicode_len();
    let start: usize = if len > 0 && s.get_char(0) == '+' { 1 } else { 0 };
    if start == len {
        return None;
    }
    let ghost digits = s@.skip(start as int);
    assert(s@.skip(0) == s@);
    assert(number_value(s@) == digits_value(digits));
    let mut i: usize = start;
    let mut value: u64 = 0;
    assert(digits.take(0).len() == 0);
    while i < len
        invariant
            start <= i <= len == s@.len(),
            start <= 1,
            digits == s@.skip(start as int),
            number_value(s@) == digits_value(digits),
            digits_value(digits.take(i - start)) == Some(value as nat),
            value <= max,
        decreases len - i,
    {
        let c = s.get_char(i);
        let ghost seen = digits.take(i + 1 - start);
        assert(seen.drop_last() == digits.take(i - start));
        assert(seen.last() == c);
        if c < '0' || c > '9' {
            proof {
                lemma_digits_prefix(digits, i + 1 - start);
            }
            return None;
        }
        let d: u64 = c as u64 - '0' as u64;
        value = 10 * value + d;
        if value > max as u64 {
            proof {
                lemma_digits_grow(digits, i + 1 - start);
            }
            return None;
        }
        i = i + 1;
    }
    assert(digits.take(len - start) == digits);
    Some(value as u32)
}

/// Where a run of characters is a number, so is each of its beginnings.
proof fn lemma_digits_prefix(s: Seq<char>, n: int)
    requires
        0 <= n <= s.len(),
    ensures
        digits_value(s) is Some ==> digits_value(s.take(n)) is Some,
    decreases s.len() - n,
{
    if n < s.len() {
        lemma_digits_prefix(s.drop_last(), n);
        assert(s.drop_last().take(n) == s.take(n));
    } else {
        assert(s.take(n) == s);
    }
}

/// A number is at least as large as each of its beginnings.
proof fn lemma_digits_grow(s: Seq<char>, n: int)
    requires
        0 <= n <= s.len(),
    ensures
        digits_value(s) matches Some(v) ==> (digits_value(s.take(n)) matches Some(w) && w <= v),
    decreases s.len() - n,
{
    if n < s.len() {
        lemma_digits_grow(s.drop_last(), n);
        assert(s.drop_last().take(n) == s.take(n));
    } else {
        assert(s.take(n) == s);
    }
}

/// Whether `a` comes before `b` in the order of their characters.
pub fn comes_before(a: &str, b: &str) -> (r: bool)
    ensures
        r == before(a@, b@),
{
    let n = a.unicode_len();
    let m = b.unicode_len();
    let mut i: usize = 0;
    assert(a@.skip(0) == a@ && b@.skip(0) == b@);
    while i < n && i < m
        invariant
            n == a@.len(),
            m == b@.len(),
            i <= n,
            i <= m,
            before(a@.skip(i as int), b@.skip(i as int)) == before(a@, b@),
        decreases n - i,
    {
        let x = a.get_char(i);
        let y = b.get_char(i);
        assert(a@.skip(i as int)[0] == x && b@.skip(i as int)[0] == y);
        assert(a@.skip(i as int).drop_first() == a@.skip(i + 1));
        assert(b@.skip(i as int).drop_first() == b@.skip(i + 1));
        if x != y {
            return x < y;
        }
        i = i + 1;
    }
    i < m
}

/// The text of one decimal digit.
fn digit_text(d: u64) -> (r: String)
    requires
        d < 10,
    ensures
        r@ == seq![(d + '0' as int) as char],
{
    let digits = "0123456789";
    proof {
        reveal_strlit("0123456789");
    }
    let r = digits.substring_char(d as usize, d as usize + 1);
    assert(r@.len() == 1);
    assert(r@[0] == digits@[d as int]);
    assert(r@ == seq![(d + '0' as int) as char]);
    r.to_owned()
}

/// The decimal digits of `n`.
pub fn decimal_text(n: u64) -> (r: String)
    ensures
        r@ == decimal(n as nat),
    decreases n,
{
    if n < 10 {
        digit_text(n)
    } else {
        let head = decimal_text(n / 10);
        let last = digit_text(n % 10);
        let r = head.concat(last.as_str());
        assert(r@ == decimal(n as nat));
        r
    }
}

} // verus!
