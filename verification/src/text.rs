//! Text building blocks: decimal numbers, joining, prefixes and replacement.

use vstd::prelude::*;

verus! {

/// The decimal digit of `d`.
pub open spec fn digit(d: nat) -> char
    recommends
        d < 10,
{
    (48 + d) as char
}

/// The decimal notation of `n`, without leading zeros.
pub open spec fn decimal(n: nat) -> Seq<char>
    decreases n,
{
    if n < 10 {
        seq![digit(n)]
    } else {
        decimal(n / 10).push(digit(n % 10))
    }
}

/// The decimal notation of `n`, padded with a zero to two digits.
pub open spec fn two_digits(n: nat) -> Seq<char> {
    if n < 10 {
        seq!['0'] + decimal(n)
    } else {
        decimal(n)
    }
}

/// `parts` in order, with `sep` between neighbours.
pub open spec fn joined(parts: Seq<Seq<char>>, sep: Seq<char>) -> Seq<char>
    decreases parts.len(),
{
    if parts.len() == 0 {
        Seq::empty()
    } else if parts.len() == 1 {
        parts[0]
    } else {
        joined(parts.drop_last(), sep) + sep + parts.last()
    }
}

/// What follows `prefix` in `s`, if `s` starts with it.
pub open spec fn without_prefix(s: Seq<char>, prefix: Seq<char>) -> Option<Seq<char>> {
    if prefix.is_prefix_of(s) {
        Some(s.skip(prefix.len() as int))
    } else {
        None
    }
}

/// `s` with the first `c` in it replaced by `with`.
pub open spec fn first_replaced(s: Seq<char>, c: char, with: Seq<char>) -> Seq<char> {
    if s.contains(c) {
        let i = s.index_of_first(c)->0;
        s.take(i) + with + s.skip(i + 1)
    } else {
        s
    }
}

/// The views of a list of strings.
pub open spec fn texts(parts: Seq<String>) -> Seq<Seq<char>> {
    parts.map_values(|p: String| p@)
}

/// The view of a string that may be missing.
pub open spec fn text_of(s: Option<String>) -> Option<Seq<char>> {
    match s {
        Some(t) => Some(t@),
        None => None,
    }
}

/// Different numbers have different decimal notations.
pub proof fn decimal_is_injective(a: nat, b: nat)
    requires
        decimal(a) == decimal(b),
    ensures
        a == b,
    decreases a,
{
    assert(decimal(a).last() == digit(a % 10));
    assert(decimal(b).last() == digit(b % 10));
    if a < 10 || b < 10 {
        lemma_decimal_len(a);
        lemma_decimal_len(b);
    } else {
        assert(decimal(a).drop_last() =~= decimal(a / 10));
        assert(decimal(b).drop_last() =~= decimal(b / 10));
        decimal_is_injective(a / 10, b / 10);
    }
}

proof fn lemma_decimal_len(n: nat)
    ensures
        decimal(n).len() >= 1,
        n >= 10 ==> decimal(n).len() >= 2,
    decreases n,
{
    if n >= 10 {
        lemma_decimal_len(n / 10);
    }
}

fn digit_str(d: u64) -> (s: &'static str)
    requires
        d < 10,
    ensures
        s@ == seq![digit(d as nat)],
{
    proof {
        reveal_strlit("0");
        reveal_strlit("1");
        reveal_strlit("2");
        reveal_strlit("3");
        reveal_strlit("4");
        reveal_strlit("5");
        reveal_strlit("6");
        reveal_strlit("7");
        reveal_strlit("8");
        reveal_strlit("9");
    }
    let s = match d {
        0 => "0",
        1 => "1",
        2 => "2",
        3 => "3",
        4 => "4",
        5 => "5",
        6 => "6",
        7 => "7",
        8 => "8",
        _ => "9",
    };
    assert(s@ =~= seq![digit(d as nat)]);
    s
}

/// Appends the decimal notation of `n` to `out`.
pub fn push_decimal(out: &mut String, n: u64)
    ensures
        final(out)@ == old(out)@ + decimal(n as nat),
    decreases n,
{
    if n >= 10 {
        push_decimal(out, n / 10);
    }
    out.append(digit_str(n % 10));
    assert(out@ =~= old(out)@ + decimal(n as nat));
}

/// Appends the decimal notation of `n`, padded to two digits, to `out`.
pub fn push_two_digits(out: &mut String, n: u64)
    ensures
        final(out)@ == old(out)@ + two_digits(n as nat),
{
    if n < 10 {
        proof {
            reveal_strlit("0");
        }
        out.append("0");
        assert("0"@ =~= seq!['0']);
    }
    push_decimal(out, n);
    assert(out@ =~= old(out)@ + two_digits(n as nat));
}

/// The decimal notation of `n`.
pub fn decimal_string(n: u64) -> (s: String)
    ensures
        s@ == decimal(n as nat),
{
    let mut s = String::new();
    push_decimal(&mut s, n);
    assert(s@ =~= decimal(n as nat));
    s
}

/// Whether two texts are the same.
pub fn same_text(a: &str, b: &str) -> (same: bool)
    ensures
        same == (a@ == b@),
{
    a.to_owned() == b.to_owned()
}

/// `parts` in order, with `sep` between neighbours.
pub fn join(parts: &Vec<String>, sep: &str) -> (s: String)
    ensures
        s@ == joined(texts(parts@), sep@),
{
    let mut s = String::new();
    let mut i: usize = 0;
    let ghost all = texts(parts@);
    while i < parts.len()
        invariant
            i <= parts@.len(),
            all == texts(parts@),
            s@ == joined(all.take(i as int), sep@),
        decreases parts@.len() - i,
    {
        assert(all.take(i + 1).drop_last() =~= all.take(i as int));
        if i > 0 {
            s.append(sep);
        }
        s.append(parts[i].as_str());
        i += 1;
        assert(s@ =~= joined(all.take(i as int), sep@));
    }
    assert(all.take(i as int) =~= all);
    s
}

/// What follows `prefix` in `s`, if `s` starts with it.
pub fn strip_prefix(s: &str, prefix: &str) -> (rest: Option<String>)
    ensures
        text_of(rest) == without_prefix(s@, prefix@),
{
    let n: usize = s.unicode_len();
    let k: usize = prefix.unicode_len();
    if k > n {
        return None;
    }
    let mut i: usize = 0;
    while i < k
        invariant
            i <= k,
            k == prefix@.len(),
            k <= s@.len(),
            forall|j: int| 0 <= j < i ==> s@[j] == prefix@[j],
        decreases k - i,
    {
        if s.get_char(i) != prefix.get_char(i) {
            return None;
        }
        i += 1;
    }
    assert(prefix@ =~= s@.subrange(0, k as int));
    let rest = s.substring_char(k, n).to_owned();
    assert(rest@ =~= s@.skip(k as int));
    Some(rest)
}

/// `s` with the first `c` in it replaced by `with`.
pub fn replace_first(s: &str, c: char, with: &str) -> (r: String)
    ensures
        r@ == first_replaced(s@, c, with@),
{
    let n: usize = s.unicode_len();
    let mut i: usize = 0;
    while i < n
        invariant
            i <= n,
            n == s@.len(),
            forall|j: int| 0 <= j < i ==> s@[j] != c,
        decreases n - i,
    {
        if s.get_char(i) == c {
            let mut r = s.substring_char(0, i).to_owned();
            r.append(with);
            r.append(s.substring_char(i + 1, n));
            proof {
                s@.index_of_first_ensures(c);
                assert(s@.contains(s@[i as int]));
                assert(s@.index_of_first(c) == Some(i as int));
                assert(r@ =~= first_replaced(s@, c, with@));
            }
            return r;
        }
        i += 1;
    }
    s.to_owned()
}

/// The number that decimal digits show.
pub open spec fn number_shown(s: Seq<char>) -> int
    decreases s.len(),
{
    if s.len() == 0 {
        0
    } else {
        number_shown(s.drop_last()) * 10 + (s.last() as int - '0' as int)
    }
}

/// Whether `s` is a number in decimal digits, without leading zeros.
pub open spec fn is_number(s: Seq<char>) -> bool {
    &&& s.len() > 0
    &&& forall|i: int| 0 <= i < s.len() ==> '0' <= #[trigger] s[i] <= '9'
    &&& s.len() > 1 ==> s[0] != '0'
}

/// The decimal notation of a number shows that number.
pub proof fn decimals_show_their_number(n: nat)
    ensures
        is_number(decimal(n)),
        number_shown(decimal(n)) == n,
        n > 0 ==> decimal(n)[0] != '0',
    decreases n,
{
    if n >= 10 {
        let front = decimal(n / 10);
        let all = decimal(n);
        decimals_show_their_number(n / 10);
        assert(all.drop_last() =~= front);
        assert(all[0] == front[0]);
        assert forall|i: int| 0 <= i < all.len() implies '0' <= #[trigger] all[i] <= '9' by {
            if i < front.len() {
                assert(all[i] == front[i]);
            }
        }
    } else {
        let all = decimal(n);
        assert(all.drop_last() =~= Seq::<char>::empty());
        assert(number_shown(all.drop_last()) == 0);
    }
}

/// A number below a hundred, padded to two digits, has two digits and shows that
/// number.
pub proof fn two_digits_show_their_number(n: nat)
    requires
        n < 100,
    ensures
        two_digits(n).len() == 2,
        '0' <= two_digits(n)[0] <= '9',
        '0' <= two_digits(n)[1] <= '9',
        number_shown(two_digits(n)) == n,
{
    decimals_show_their_number(n);
    let d = decimal(n);
    if n < 10 {
        assert(d =~= seq![digit(n)]);
        assert(two_digits(n) =~= seq!['0', digit(n)]);
        assert(two_digits(n).drop_last() =~= seq!['0']);
        assert(seq!['0'].drop_last() =~= Seq::<char>::empty());
        assert(number_shown(seq!['0']) == 0) by {
            reveal_with_fuel(number_shown, 2);
        }
    } else {
        assert(decimal(n / 10) =~= seq![digit(n / 10)]);
        assert(d =~= seq![digit(n / 10), digit(n % 10)]);
    }
}

/// What is written of a number shows that number.
pub proof fn written_numbers_are_right(n: u64, s: String)
    requires
        call_ensures(decimal_string, (n,), s),
    ensures
        is_number(s@),
        number_shown(s@) == n,
{
    decimals_show_their_number(n as nat);
}

/// A number is appended to a text, which stays as it is.
pub proof fn numbers_are_appended(out: &mut String, n: u64)
    requires
        call_ensures(push_decimal, (out, n), ()),
    ensures
        old(out)@.is_prefix_of(final(out)@),
        is_number(final(out)@.skip(old(out)@.len() as int)),
        number_shown(final(out)@.skip(old(out)@.len() as int)) == n,
{
    decimals_show_their_number(n as nat);
    assert(final(out)@.skip(old(out)@.len() as int) =~= decimal(n as nat));
    assert(old(out)@ =~= final(out)@.take(old(out)@.len() as int));
}

/// A number below a hundred is appended with two digits to a text, which stays as it
/// is.
pub proof fn padded_numbers_are_appended(out: &mut String, n: u64)
    requires
        n < 100,
        call_ensures(push_two_digits, (out, n), ()),
    ensures
        old(out)@.is_prefix_of(final(out)@),
        final(out)@.len() == old(out)@.len() + 2,
        number_shown(final(out)@.skip(old(out)@.len() as int)) == n,
{
    two_digits_show_their_number(n as nat);
    assert(final(out)@.skip(old(out)@.len() as int) =~= two_digits(n as nat));
    assert(old(out)@ =~= final(out)@.take(old(out)@.len() as int));
}

/// Joining puts one separator between neighbours: nothing is joined to nothing, one
/// part stays as it is, and two lists that are joined one after the other have a
/// separator between them.
pub proof fn joining_separates_neighbours(a: Seq<Seq<char>>, b: Seq<Seq<char>>, sep: Seq<char>)
    ensures
        a.len() == 0 ==> joined(a, sep) == Seq::<char>::empty(),
        a.len() == 1 ==> joined(a, sep) == a[0],
        a.len() > 0 && b.len() > 0 ==> joined(a + b, sep) == joined(a, sep) + sep + joined(b, sep),
    decreases b.len(),
{
    if a.len() > 0 && b.len() > 0 {
        assert((a + b).drop_last() =~= a + b.drop_last());
        if b.len() == 1 {
            assert(a + b.drop_last() =~= a);
        } else {
            joining_separates_neighbours(a, b.drop_last(), sep);
        }
        assert(joined(a + b, sep) =~= joined(a, sep) + sep + joined(b, sep));
    }
}

/// Where the part at `i` begins in the joined text.
pub open spec fn offset_of(parts: Seq<Seq<char>>, sep: Seq<char>, i: int) -> int
    decreases i,
{
    if i <= 0 {
        0
    } else {
        offset_of(parts, sep, i - 1) + parts[i - 1].len() + sep.len()
    }
}

/// Every part is found in the joined text, after all parts before it and the
/// separators between, and the text is no longer than that.
pub proof fn joining_keeps_every_part(parts: Seq<Seq<char>>, sep: Seq<char>, i: int)
    requires
        0 <= i < parts.len(),
    ensures
        0 <= offset_of(parts, sep, i) <= joined(parts, sep).len() - parts[i].len(),
        joined(parts, sep).subrange(
            offset_of(parts, sep, i),
            offset_of(parts, sep, i) + parts[i].len(),
        ) == parts[i],
        joined(parts, sep).len() == offset_of(parts, sep, parts.len() - 1) + parts.last().len(),
    decreases parts.len(),
{
    let all = joined(parts, sep);
    let last = parts.len() - 1;
    if parts.len() == 1 {
        assert(all.subrange(0, parts[0].len() as int) =~= parts[0]);
    } else {
        let front = parts.drop_last();
        joining_keeps_every_part(front, sep, last - 1);
        lemma_offsets_agree(front, parts, sep, last - 1);
        if i < last {
            joining_keeps_every_part(front, sep, i);
            lemma_offsets_agree(front, parts, sep, i);
            let at = offset_of(parts, sep, i);
            assert(all.subrange(at, at + parts[i].len()) =~= joined(front, sep).subrange(
                at,
                at + parts[i].len(),
            ));
        } else {
            let at = offset_of(parts, sep, i);
            assert(all.subrange(at, at + parts[i].len()) =~= parts[i]);
        }
    }
}

proof fn lemma_offsets_agree(a: Seq<Seq<char>>, b: Seq<Seq<char>>, sep: Seq<char>, i: int)
    requires
        0 <= i < a.len() <= b.len(),
        forall|j: int| 0 <= j < a.len() ==> #[trigger] a[j] == b[j],
    ensures
        offset_of(a, sep, i) == offset_of(b, sep, i),
    decreases i,
{
    if i > 0 {
        lemma_offsets_agree(a, b, sep, i - 1);
    }
}

/// What `join` writes is the parts in order, each at its place.
pub proof fn joined_text_holds_the_parts(parts: Vec<String>, sep: &str, s: String, i: int)
    requires
        call_ensures(join, (&parts, sep), s),
        0 <= i < parts@.len(),
    ensures
        ({
            let views = Seq::new(parts@.len(), |j: int| parts@[j]@);
            let at = offset_of(views, sep@, i);
            &&& 0 <= at <= s@.len() - parts@[i]@.len()
            &&& s@.subrange(at, at + parts@[i]@.len()) == parts@[i]@
            &&& i > 0 ==> s@.subrange(at - sep@.len(), at) == sep@
            &&& s@.len() == offset_of(views, sep@, parts@.len() - 1) + parts@.last()@.len()
        }),
{
    let views = Seq::new(parts@.len(), |j: int| parts@[j]@);
    assert(views =~= texts(parts@));
    joining_keeps_every_part(views, sep@, i);
    if i > 0 {
        lemma_separator(views, sep@, i);
    }
}

proof fn lemma_separator(parts: Seq<Seq<char>>, sep: Seq<char>, i: int)
    requires
        0 < i < parts.len(),
    ensures
        0 <= offset_of(parts, sep, i) - sep.len(),
        offset_of(parts, sep, i) <= joined(parts, sep).len(),
        joined(parts, sep).subrange(
            offset_of(parts, sep, i) - sep.len(),
            offset_of(parts, sep, i),
        ) == sep,
    decreases parts.len(),
{
    let all = joined(parts, sep);
    let front = parts.drop_last();
    let last = parts.len() - 1;
    let at = offset_of(parts, sep, i);
    joining_keeps_every_part(front, sep, last - 1);
    joining_keeps_every_part(parts, sep, i);
    joining_keeps_every_part(parts, sep, i - 1);
    lemma_offsets_agree(front, parts, sep, last - 1);
    if i < last {
        lemma_separator(front, sep, i);
        lemma_offsets_agree(front, parts, sep, i);
        assert(all.subrange(at - sep.len(), at) =~= joined(front, sep).subrange(
            at - sep.len(),
            at,
        ));
    } else {
        assert(all.subrange(at - sep.len(), at) =~= sep);
    }
}

/// A prefix is taken off exactly where it stands in front: what is left, put behind it
/// again, is the text.
pub proof fn prefixes_are_taken_off(s: &str, prefix: &str, rest: Option<String>)
    requires
        call_ensures(strip_prefix, (s, prefix), rest),
    ensures
        match rest {
            Some(left) => s@ == prefix@ + left@,
            None => forall|left: Seq<char>| s@ != #[trigger] (prefix@ + left),
        },
{
    match rest {
        Some(left) => {
            assert(s@ =~= prefix@ + left@);
        },
        None => {
            assert forall|left: Seq<char>| s@ != #[trigger] (prefix@ + left) by {
                if s@ == prefix@ + left {
                    assert(prefix@ =~= s@.take(prefix@.len() as int));
                }
            }
        },
    }
}

/// The same, of what is left.
pub proof fn what_follows_a_prefix(prefix: Seq<char>, rest: Seq<char>, s: Seq<char>)
    ensures
        without_prefix(prefix + rest, prefix) == Some(rest),
        without_prefix(s, prefix) is Some ==> s == prefix + without_prefix(s, prefix)->0,
{
    let all = prefix + rest;
    assert(prefix =~= all.take(prefix.len() as int));
    assert(all.skip(prefix.len() as int) =~= rest);
    if prefix.is_prefix_of(s) {
        assert(s =~= prefix + s.skip(prefix.len() as int));
    }
}

/// Only the first of the characters looked for is replaced: what stands before it and
/// behind it stays, and a text without it stays as it is.
pub proof fn the_first_is_replaced(
    before: Seq<char>,
    c: char,
    after: Seq<char>,
    with: Seq<char>,
)
    requires
        !before.contains(c),
    ensures
        first_replaced(before, c, with) == before,
        first_replaced(before + seq![c] + after, c, with) == before + with + after,
{
    let s = before + seq![c] + after;
    let k = before.len() as int;
    assert(s[k] == c);
    assert(s.contains(c));
    s.index_of_first_ensures(c);
    let i = s.index_of_first(c)->0;
    if i < k {
        assert(before[i] == c);
        assert(before.contains(c));
    }
    assert(i == k);
    assert(s.take(i) =~= before);
    assert(s.skip(i + 1) =~= after);
}

/// The same, of what `replace_first` writes.
pub proof fn replacing_changes_one_place(
    s: &str,
    c: char,
    with: &str,
    r: String,
    before: Seq<char>,
    after: Seq<char>,
)
    requires
        call_ensures(replace_first, (s, c, with), r),
        !before.contains(c),
    ensures
        s@ == before ==> r@ == s@,
        s@ == before + seq![c] + after ==> r@ == before + with@ + after,
{
    the_first_is_replaced(before, c, after, with@);
}

/// Two texts are the same if they have the same characters.
pub proof fn same_texts_have_the_same_characters(a: &str, b: &str, same: bool)
    requires
        call_ensures(same_text, (a, b), same),
    ensures
        same == (a@.len() == b@.len() && forall|i: int| 0 <= i < a@.len() ==> a@[i] == b@[i]),
{
    if a@.len() == b@.len() && forall|i: int| 0 <= i < a@.len() ==> a@[i] == b@[i] {
        assert(a@ =~= b@);
    }
}

} // verus!
