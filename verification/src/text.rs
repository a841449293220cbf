//! Text building blocks shared by the renderer and the reports.

use vstd::prelude::*;
use vstd::utf8::{char_is_scalar, encode_scalar, encode_utf8, is_ascii_chars};

verus! {

/// The texts of a sequence of strings.
pub open spec fn views(v: Seq<String>) -> Seq<Seq<char>> {
    v.map_values(|s: String| s@)
}

/// `items` with `sep` between each two neighbours.
pub open spec fn join(items: Seq<Seq<char>>, sep: Seq<char>) -> Seq<char>
    decreases items.len(),
{
    if items.len() == 0 {
        Seq::empty()
    } else if items.len() == 1 {
        items[0]
    } else {
        join(items.drop_last(), sep) + sep + items.last()
    }
}

/// Joins the strings with `sep` between each two neighbours.
pub fn join_strings(items: &Vec<String>, sep: &str) -> (r: String)
    ensures
        r@ == join(views(items@), sep@),
{
    let mut r = String::new();
    let n = items.len();
    let mut i: usize = 0;
    while i < n
        invariant
            0 <= i <= n,
            n == items@.len(),
            r@ == join(views(items@).take(i as int), sep@),
        decreases n - i,
    {
        proof {
            assert(views(items@).take(i + 1).drop_last() =~= views(items@).take(i as int));
        }
        if i > 0 {
            r.append(sep);
        }
        r.append(items[i].as_str());
        i += 1;
    }
    proof {
        assert(views(items@).take(n as int) =~= views(items@));
    }
    r
}

/// Copies the strings.
pub fn copy_strings(items: &[String]) -> (r: Vec<String>)
    ensures
        views(r@) == views(items@),
{
    let mut r: Vec<String> = Vec::new();
    let n = items.len();
    let mut i: usize = 0;
    while i < n
        invariant
            0 <= i <= n,
            n == items@.len(),
            views(r@) == views(items@).take(i as int),
        decreases n - i,
    {
        let ghost before = r@;
        let c = items[i].clone();
        r.push(c);
        proof {
            assert(r@ == before.push(c));
            assert(c@ == items@[i as int]@);
            assert(views(r@) =~= views(before).push(c@));
            assert(views(items@).take(i + 1) =~= views(items@).take(i as int).push(items@[i as int]@));
        }
        i += 1;
    }
    proof {
        assert(views(items@).take(n as int) =~= views(items@));
    }
    r
}

/// The texts joined by single spaces.
pub fn spaced(parts: &Vec<&str>) -> (r: String)
    ensures
        r@ == join(parts@.map_values(|p: &str| p@), " "@),
{
    let mut r = String::new();
    let n = parts.len();
    let mut i: usize = 0;
    while i < n
        invariant
            0 <= i <= n,
            n == parts@.len(),
            r@ == join(parts@.map_values(|p: &str| p@).take(i as int), " "@),
        decreases n - i,
    {
        proof {
            assert(parts@.map_values(|p: &str| p@).take(i + 1).drop_last() =~= parts@.map_values(
                |p: &str| p@,
            ).take(i as int));
        }
        if i > 0 {
            r.append(" ");
        }
        r.append(parts[i]);
        i += 1;
    }
    proof {
        assert(parts@.map_values(|p: &str| p@).take(n as int) =~= parts@.map_values(|p: &str| p@));
    }
    r
}

/// The decimal digit of a number below ten.
pub open spec fn digit(d: nat) -> Seq<char> {
    if d == 0 {
        "0"@
    } else if d == 1 {
        "1"@
    } else if d == 2 {
        "2"@
    } else if d == 3 {
        "3"@
    } else if d == 4 {
        "4"@
    } else if d == 5 {
        "5"@
    } else if d == 6 {
        "6"@
    } else if d == 7 {
        "7"@
    } else if d == 8 {
        "8"@
    } else {
        "9"@
    }
}

/// The decimal notation of a number, without leading zeros.
pub open spec fn decimal(n: nat) -> Seq<char>
    decreases n,
{
    if n < 10 {
        digit(n)
    } else {
        decimal(n / 10) + digit(n % 10)
    }
}

fn digit_str(d: usize) -> (s: &'static str)
    requires
        d < 10,
    ensures
        s@ == digit(d as nat),
{
    if d == 0 {
        "0"
    } else if d == 1 {
        "1"
    } else if d == 2 {
        "2"
    } else if d == 3 {
        "3"
    } else if d == 4 {
        "4"
    } else if d == 5 {
        "5"
    } else if d == 6 {
        "6"
    } else if d == 7 {
        "7"
    } else if d == 8 {
        "8"
    } else {
        "9"
    }
}

/// Writes a number in decimal.
pub fn decimal_text(n: usize) -> (r: String)
    ensures
        r@ == decimal(n as nat),
    decreases n,
{
    if n < 10 {
        let mut r = String::new();
        r.append(digit_str(n));
        r
    } else {
        let mut r = decimal_text(n / 10);
        r.append(digit_str(n % 10));
        r
    }
}

// ── White space, trimming and comma-separated lists ──

/// Whether a character is white space: Unicode's White_Space property, which
/// `char::is_whitespace` and `str::trim` go by.
pub open spec fn is_white(c: char) -> bool {
    let v = c as u32;
    (9 <= v <= 13) || v == 32 || v == 0x85 || v == 0xa0 || v == 0x1680 || (0x2000 <= v <= 0x200a)
        || v == 0x2028 || v == 0x2029 || v == 0x202f || v == 0x205f || v == 0x3000
}

/// Tests a character for white space.
pub fn is_white_char(c: char) -> (b: bool)
    ensures
        b == is_white(c),
{
    let v = c as u32;
    (9 <= v && v <= 13) || v == 32 || v == 0x85 || v == 0xa0 || v == 0x1680 || (0x2000 <= v && v
        <= 0x200a) || v == 0x2028 || v == 0x2029 || v == 0x202f || v == 0x205f || v == 0x3000
}

/// The position of the first character at or after `i` that is not white space.
pub open spec fn lead_end(s: Seq<char>, i: int) -> int
    decreases s.len() - i,
{
    if 0 <= i < s.len() && is_white(s[i]) {
        lead_end(s, i + 1)
    } else {
        i
    }
}

/// The position just after the last character before `j` (and from `lo` on)
/// that is not white space.
pub open spec fn trail_end(s: Seq<char>, j: int, lo: int) -> int
    decreases j - lo,
{
    if j > lo && is_white(s[j - 1]) {
        trail_end(s, j - 1, lo)
    } else {
        j
    }
}

/// A text without its leading and trailing white space.
pub open spec fn trim(s: Seq<char>) -> Seq<char> {
    let a = lead_end(s, 0);
    s.subrange(a, trail_end(s, s.len() as int, a))
}

proof fn lemma_lead_end(s: Seq<char>, i: int)
    requires
        0 <= i <= s.len(),
    ensures
        i <= lead_end(s, i) <= s.len(),
        lead_end(s, i) < s.len() ==> !is_white(s[lead_end(s, i)]),
    decreases s.len() - i,
{
    if i < s.len() && is_white(s[i]) {
        lemma_lead_end(s, i + 1);
    }
}

proof fn lemma_trail_end(s: Seq<char>, j: int, lo: int)
    requires
        0 <= lo <= j <= s.len(),
    ensures
        lo <= trail_end(s, j, lo) <= j,
        trail_end(s, j, lo) > lo ==> !is_white(s[trail_end(s, j, lo) - 1]),
    decreases j - lo,
{
    if j > lo && is_white(s[j - 1]) {
        lemma_trail_end(s, j - 1, lo);
    }
}

/// Trimming keeps a part of the text, and what it keeps starts and ends with
/// a character that is not white space.
proof fn lemma_trim_shape(s: Seq<char>)
    ensures
        exists|a: int, b: int| 0 <= a <= b <= s.len() && trim(s) == s.subrange(a, b),
        trim(s).len() > 0 ==> !is_white(trim(s)[0]) && !is_white(trim(s).last()),
{
    let a = lead_end(s, 0);
    lemma_lead_end(s, 0);
    let b = trail_end(s, s.len() as int, a);
    lemma_trail_end(s, s.len() as int, a);
    assert(trim(s) == s.subrange(a, b));
}

/// A text that starts and ends with a character that is not white space is
/// its own trim.
proof fn lemma_trim_fixed(t: Seq<char>)
    requires
        t.len() > 0 ==> !is_white(t[0]) && !is_white(t.last()),
    ensures
        trim(t) == t,
{
    assert(lead_end(t, 0) == 0);
    assert(trail_end(t, t.len() as int, 0) == t.len());
    assert(t.subrange(0, t.len() as int) =~= t);
}

/// Trimming twice trims no more than trimming once.
pub proof fn law_trim_idempotent(s: Seq<char>)
    ensures
        trim(trim(s)) == trim(s),
{
    lemma_trim_shape(s);
    lemma_trim_fixed(trim(s));
}

/// The text without its leading and trailing white space.
pub fn trim_text(s: &str) -> (r: String)
    ensures
        r@ == trim(s@),
{
    let n = s.unicode_len();
    let mut a: usize = 0;
    while a < n && is_white_char(s.get_char(a))
        invariant
            0 <= a <= n,
            n == s@.len(),
            lead_end(s@, a as int) == lead_end(s@, 0),
        decreases n - a,
    {
        a += 1;
    }
    let mut b: usize = n;
    while b > a && is_white_char(s.get_char(b - 1))
        invariant
            a <= b <= n,
            n == s@.len(),
            a == lead_end(s@, 0),
            trail_end(s@, b as int, a as int) == trail_end(s@, n as int, a as int),
        decreases b,
    {
        b -= 1;
    }
    s.substring_char(a, b).to_owned()
}

/// The pieces of a text between its commas.
pub open spec fn split_commas(s: Seq<char>) -> Seq<Seq<char>>
    decreases s.len(),
{
    if s.len() == 0 {
        seq![Seq::empty()]
    } else {
        let p = split_commas(s.drop_last());
        if s.last() == ',' {
            p.push(Seq::empty())
        } else {
            p.update(p.len() - 1, p.last().push(s.last()))
        }
    }
}

/// The trimmed pieces that are not empty.
pub open spec fn csv_of(pieces: Seq<Seq<char>>) -> Seq<Seq<char>> {
    pieces.map_values(|p: Seq<char>| trim(p)).filter(|t: Seq<char>| t.len() > 0)
}

/// The items of a comma-separated list: its pieces, trimmed, without the empty ones.
pub open spec fn csv_items(s: Seq<char>) -> Seq<Seq<char>> {
    csv_of(split_commas(s))
}

proof fn lemma_split_commas_nonempty(s: Seq<char>)
    ensures
        split_commas(s).len() >= 1,
    decreases s.len(),
{
    if s.len() > 0 {
        lemma_split_commas_nonempty(s.drop_last());
    }
}

pub proof fn lemma_csv_of_push(done: Seq<Seq<char>>, p: Seq<char>)
    ensures
        csv_of(done.push(p)) == if trim(p).len() > 0 {
            csv_of(done).push(trim(p))
        } else {
            csv_of(done)
        },
{
    let f = |q: Seq<char>| trim(q);
    let g = |t: Seq<char>| t.len() > 0;
    assert(done.push(p).map_values(f) =~= done.map_values(f).push(trim(p)));
    reveal(Seq::filter);
    assert(done.map_values(f).push(trim(p)).drop_last() =~= done.map_values(f));
}

/// Appends the trimmed piece unless it is empty.
pub fn push_trimmed(items: &mut Vec<String>, piece: &str)
    ensures
        views(final(items)@) == if trim(piece@).len() > 0 {
            views(old(items)@).push(trim(piece@))
        } else {
            views(old(items)@)
        },
{
    let t = trim_text(piece);
    if t.as_str().unicode_len() > 0 {
        let ghost before = items@;
        items.push(t);
        proof {
            assert(views(items@) =~= views(before).push(trim(piece@)));
        }
    }
}

/// Whether a text holds no comma.
pub open spec fn comma_free(t: Seq<char>) -> bool {
    forall|i: int| 0 <= i < t.len() ==> t[i] != ','
}

proof fn lemma_split_pieces_comma_free(s: Seq<char>)
    ensures
        forall|k: int| 0 <= k < split_commas(s).len() ==> comma_free(#[trigger] split_commas(s)[k]),
    decreases s.len(),
{
    if s.len() > 0 {
        lemma_split_pieces_comma_free(s.drop_last());
        lemma_split_commas_nonempty(s.drop_last());
    }
}

/// Every item of a comma-separated list is non-empty, holds no comma, and has
/// no white space at either end.
pub proof fn law_csv_items_clean(s: Seq<char>)
    ensures
        forall|k: int| 0 <= k < csv_items(s).len() ==> {
            &&& (#[trigger] csv_items(s)[k]).len() > 0
            &&& comma_free(csv_items(s)[k])
            &&& trim(csv_items(s)[k]) == csv_items(s)[k]
        },
{
    let pieces = split_commas(s);
    let trimmed = pieces.map_values(|p: Seq<char>| trim(p));
    lemma_split_pieces_comma_free(s);
    broadcast use Seq::lemma_filter_pred;
    assert forall|k: int| 0 <= k < csv_items(s).len() implies {
        &&& (#[trigger] csv_items(s)[k]).len() > 0
        &&& comma_free(csv_items(s)[k])
        &&& trim(csv_items(s)[k]) == csv_items(s)[k]
    } by {
        let item = csv_items(s)[k];
        lemma_filter_member(trimmed, |t: Seq<char>| t.len() > 0, k);
        let j = choose|j: int| 0 <= j < trimmed.len() && trimmed[j] == item;
        lemma_trim_shape(pieces[j]);
        assert(comma_free(pieces[j]));
        law_trim_idempotent(pieces[j]);
    }
}

/// What a filter keeps comes from the filtered sequence.
proof fn lemma_filter_member<A>(s: Seq<A>, p: spec_fn(A) -> bool, k: int)
    requires
        0 <= k < s.filter(p).len(),
    ensures
        exists|j: int| 0 <= j < s.len() && s[j] == s.filter(p)[k],
    decreases s.len(),
{
    reveal(Seq::filter);
    if s.len() > 0 {
        let sub = s.drop_last().filter(p);
        if k < sub.len() {
            lemma_filter_member(s.drop_last(), p, k);
            let j = choose|j: int| 0 <= j < s.drop_last().len() && s.drop_last()[j] == sub[k];
            assert(s[j] == s.filter(p)[k]);
        } else {
            assert(s[s.len() - 1] == s.filter(p)[k]);
        }
    }
}

proof fn lemma_split_append(x: Seq<char>, y: Seq<char>)
    requires
        comma_free(y),
    ensures
        split_commas(x + y) == split_commas(x).update(
            split_commas(x).len() - 1,
            split_commas(x).last() + y,
        ),
    decreases y.len(),
{
    lemma_split_commas_nonempty(x);
    if y.len() == 0 {
        assert(x + y =~= x);
        assert(split_commas(x).last() + y =~= split_commas(x).last());
        assert(split_commas(x).update(split_commas(x).len() - 1, split_commas(x).last())
            =~= split_commas(x));
    } else {
        let y0 = y.drop_last();
        let c = y.last();
        assert(comma_free(y0));
        lemma_split_append(x, y0);
        assert((x + y).drop_last() =~= x + y0);
        assert((x + y).last() == c);
        assert(c != ',');
        assert((split_commas(x).last() + y0).push(c) =~= split_commas(x).last() + y);
        assert(split_commas(x + y) =~= split_commas(x).update(
            split_commas(x).len() - 1,
            split_commas(x).last() + y,
        ));
    }
}

proof fn lemma_split_join(items: Seq<Seq<char>>)
    requires
        items.len() >= 1,
        forall|k: int| 0 <= k < items.len() ==> comma_free(#[trigger] items[k]),
    ensures
        split_commas(join(items, ","@)) == items,
    decreases items.len(),
{
    reveal_strlit(",");
    if items.len() == 1 {
        lemma_split_append(Seq::empty(), items[0]);
        assert(Seq::<char>::empty() + items[0] =~= items[0]);
        assert(split_commas(Seq::<char>::empty()) =~= seq![Seq::<char>::empty()]);
        assert(seq![Seq::<char>::empty()].update(0, Seq::<char>::empty() + items[0]) =~= items);
    } else {
        let dl = items.drop_last();
        assert forall|k: int| 0 <= k < dl.len() implies comma_free(#[trigger] dl[k]) by {
            assert(dl[k] == items[k]);
        }
        lemma_split_join(dl);
        let a = join(dl, ","@) + ","@;
        assert(a.drop_last() =~= join(dl, ","@));
        assert(a.last() == ',');
        assert(split_commas(a) == dl.push(Seq::empty()));
        lemma_split_append(a, items.last());
        assert(dl.push(Seq::empty()).update(dl.len() as int, Seq::<char>::empty() + items.last())
            =~= items);
    }
}

proof fn lemma_filter_keeps_all<A>(s: Seq<A>, p: spec_fn(A) -> bool)
    requires
        forall|k: int| 0 <= k < s.len() ==> p(#[trigger] s[k]),
    ensures
        s.filter(p) == s,
    decreases s.len(),
{
    reveal(Seq::filter);
    if s.len() > 0 {
        lemma_filter_keeps_all(s.drop_last(), p);
        assert(s.drop_last().push(s.last()) =~= s);
    }
}

/// Joining clean items with commas and splitting the text again gives back
/// the items: no item is empty, holds a comma, or has white space at an end.
pub proof fn law_csv_roundtrip(items: Seq<Seq<char>>)
    requires
        forall|k: int| 0 <= k < items.len() ==> {
            &&& (#[trigger] items[k]).len() > 0
            &&& comma_free(items[k])
            &&& trim(items[k]) == items[k]
        },
    ensures
        csv_items(join(items, ","@)) == items,
{
    let f = |p: Seq<char>| trim(p);
    let g = |t: Seq<char>| t.len() > 0;
    if items.len() == 0 {
        assert(split_commas(Seq::<char>::empty()) =~= seq![Seq::<char>::empty()]);
        assert(trim(Seq::<char>::empty()) =~= Seq::<char>::empty());
        assert(seq![Seq::<char>::empty()].map_values(f) =~= seq![Seq::<char>::empty()]);
        reveal(Seq::filter);
        let one = seq![Seq::<char>::empty()];
        assert(one.drop_last() =~= Seq::<Seq<char>>::empty());
        assert(Seq::<Seq<char>>::empty().filter(g) =~= Seq::<Seq<char>>::empty());
        assert(!g(one.last()));
        assert(one.filter(g) == one.drop_last().filter(g));
        assert(one.filter(g) =~= items);
    } else {
        lemma_split_join(items);
        assert(items.map_values(f) =~= items);
        lemma_filter_keeps_all(items, g);
    }
}

/// The items with a space before each but the first: how a list joined by
/// ", " splits at its commas.
pub open spec fn spaced_after_first(items: Seq<Seq<char>>) -> Seq<Seq<char>> {
    Seq::new(items.len(), |k: int| if k == 0 { items[0] } else { " "@ + items[k] })
}

proof fn lemma_join_spaced(items: Seq<Seq<char>>)
    ensures
        join(items, ", "@) == join(spaced_after_first(items), ","@),
    decreases items.len(),
{
    reveal_strlit(", ");
    reveal_strlit(",");
    reveal_strlit(" ");
    let sp = spaced_after_first(items);
    if items.len() == 0 {
    } else if items.len() == 1 {
        assert(sp[0] == items[0]);
    } else {
        let dl = items.drop_last();
        lemma_join_spaced(dl);
        assert(spaced_after_first(dl) =~= sp.drop_last());
        assert(sp.last() == " "@ + items.last());
        assert(join(dl, ", "@) + ", "@ + items.last() =~= join(sp.drop_last(), ","@) + ","@ + (" "@
            + items.last()));
    }
}

/// A clean item after one space trims back to the item.
#[verifier::spinoff_prover]
proof fn lemma_trim_after_space(t: Seq<char>)
    requires
        t.len() > 0,
        trim(t) == t,
    ensures
        trim(" "@ + t) == t,
{
    reveal_strlit(" ");
    lemma_trim_shape(t);
    let s = " "@ + t;
    assert(s[0] == ' ');
    assert(is_white(s[0]));
    assert(s[1] == t[0]);
    assert(lead_end(s, 1) == 1);
    assert(lead_end(s, 0) == 1);
    assert(s[s.len() - 1] == t.last());
    assert(trail_end(s, s.len() as int, 1) == s.len());
    assert(s.subrange(1, s.len() as int) =~= t);
}

/// Joining clean items with ", " (as lists are written back) and reading the
/// text as a comma-separated list gives back the items.
pub proof fn law_csv_roundtrip_spaced(items: Seq<Seq<char>>)
    requires
        forall|k: int| 0 <= k < items.len() ==> {
            &&& (#[trigger] items[k]).len() > 0
            &&& comma_free(items[k])
            &&& trim(items[k]) == items[k]
        },
    ensures
        csv_items(join(items, ", "@)) == items,
{
    reveal_strlit(" ");
    lemma_join_spaced(items);
    if items.len() == 0 {
        law_csv_roundtrip(items);
        assert(spaced_after_first(items) =~= items);
    } else {
        let sp = spaced_after_first(items);
        assert forall|k: int| 0 <= k < sp.len() implies comma_free(#[trigger] sp[k]) by {
            if k > 0 {
                assert forall|i: int| 0 <= i < sp[k].len() implies sp[k][i] != ',' by {
                    if i > 0 {
                        assert(sp[k][i] == items[k][i - 1]);
                    }
                }
            }
        }
        lemma_split_join(sp);
        let f = |p: Seq<char>| trim(p);
        let g = |t: Seq<char>| t.len() > 0;
        assert forall|k: int| 0 <= k < sp.len() implies #[trigger] sp.map_values(f)[k] == items[k] by {
            if k > 0 {
                lemma_trim_after_space(items[k]);
            }
        }
        assert(sp.map_values(f) =~= items);
        lemma_filter_keeps_all(items, g);
    }
}

/// Tests two texts for equality.
pub fn same_text(a: &str, b: &str) -> (r: bool)
    ensures
        r == (a@ == b@),
{
    a.to_owned() == b.to_owned()
}

// ── Prefixes and shortened texts ──

/// Whether a text starts with a prefix.
pub open spec fn has_prefix(s: Seq<char>, prefix: Seq<char>) -> bool {
    prefix.len() <= s.len() && s.take(prefix.len() as int) == prefix
}

/// Tests whether a text starts with a prefix.
pub fn starts_with(s: &str, prefix: &str) -> (b: bool)
    ensures
        b == has_prefix(s@, prefix@),
{
    let n = s.unicode_len();
    let m = prefix.unicode_len();
    if m > n {
        return false;
    }
    let mut i: usize = 0;
    while i < m
        invariant
            0 <= i <= m <= n,
            n == s@.len(),
            m == prefix@.len(),
            forall|k: int| 0 <= k < i ==> s@[k] == prefix@[k],
        decreases m - i,
    {
        if s.get_char(i) != prefix.get_char(i) {
            proof {
                assert(s@.take(m as int)[i as int] != prefix@[i as int]);
            }
            return false;
        }
        i += 1;
    }
    proof {
        assert(s@.take(m as int) =~= prefix@);
    }
    true
}

/// The first `n` characters of a text, or all of it when it is shorter.
pub open spec fn first_chars(s: Seq<char>, n: int) -> Seq<char> {
    if s.len() <= n {
        s
    } else {
        s.take(n)
    }
}

/// The first `n` characters of a text, or all of it when it is shorter.
pub fn first_chars_text(s: &str, n: usize) -> (r: String)
    ensures
        r@ == first_chars(s@, n as int),
{
    let len = s.unicode_len();
    if len <= n {
        s.to_owned()
    } else {
        proof {
            assert(s@.subrange(0, n as int) =~= s@.take(n as int));
        }
        s.substring_char(0, n).to_owned()
    }
}

/// How many characters from the front of a text fit in `budget` bytes of
/// UTF-8.
pub open spec fn chars_within(s: Seq<char>, budget: int) -> nat
    decreases s.len(),
{
    if s.len() == 0 || encode_scalar(s[0] as u32).len() > budget {
        0
    } else {
        1 + chars_within(s.drop_first(), budget - encode_scalar(s[0] as u32).len())
    }
}

/// The first `n` bytes of a text as whole characters: the longest prefix
/// whose UTF-8 encoding takes at most `n` bytes.
pub open spec fn first_bytes(s: Seq<char>, n: int) -> Seq<char> {
    s.take(chars_within(s, n) as int)
}

/// Whether a text has `n` bytes at least and its `n`-th byte ends a
/// character, so that cutting it there splits no character.
pub open spec fn cut_at_boundary(s: Seq<char>, n: int) -> bool {
    encode_utf8(first_bytes(s, n)).len() == n
}

/// The number of bytes of a character in UTF-8.
fn utf8_width(c: char) -> (w: usize)
    ensures
        w == encode_scalar(c as u32).len(),
{
    let v: u32 = c as u32;
    proof {
        char_is_scalar(c);
    }
    if v <= 0x7F {
        1
    } else if v <= 0x7FF {
        2
    } else if v <= 0xFFFF {
        3
    } else {
        4
    }
}

/// The first `n` bytes of a text as whole characters.
pub fn first_bytes_text(s: &str, n: usize) -> (r: String)
    ensures
        r@ == first_bytes(s@, n as int),
{
    let len = s.unicode_len();
    let mut k: usize = 0;
    let mut budget: usize = n;
    proof {
        assert(s@.skip(0) =~= s@);
    }
    while k < len
        invariant
            k <= len,
            len == s@.len(),
            budget <= n,
            chars_within(s@, n as int) == k + chars_within(s@.skip(k as int), budget as int),
        ensures
            k <= len,
            chars_within(s@, n as int) == k,
        decreases len - k,
    {
        let w = utf8_width(s.get_char(k));
        if w > budget {
            proof {
                assert(s@.skip(k as int)[0] == s@[k as int]);
            }
            break;
        }
        proof {
            assert(s@.skip(k as int)[0] == s@[k as int]);
            assert(s@.skip(k as int).drop_first() =~= s@.skip(k + 1));
        }
        budget = budget - w;
        k = k + 1;
    }
    proof {
        assert(s@.subrange(0, k as int) =~= s@.take(k as int));
        if k == len {
            assert(s@.skip(k as int).len() == 0);
        }
    }
    s.substring_char(0, k).to_owned()
}

/// The characters that fit in a budget of bytes take at most that many bytes;
/// for a text of ASCII characters (one byte each) they are the first
/// `budget` characters, or all of them.
proof fn lemma_chars_within(s: Seq<char>, budget: int)
    requires
        budget >= 0,
    ensures
        chars_within(s, budget) <= s.len(),
        encode_utf8(first_bytes(s, budget)).len() <= budget,
        is_ascii_chars(s) ==> chars_within(s, budget) == if s.len() < budget {
            s.len() as int
        } else {
            budget
        },
    decreases s.len(),
{
    if s.len() > 0 && encode_scalar(s[0] as u32).len() <= budget {
        let w = encode_scalar(s[0] as u32).len();
        let rest = s.drop_first();
        lemma_chars_within(rest, budget - w);
        let k = chars_within(s, budget) as int;
        assert(s.take(k).drop_first() =~= rest.take(k - 1));
        assert(s.take(k)[0] == s[0]);
        if is_ascii_chars(s) {
            assert(is_ascii_chars(rest)) by {
                assert forall|i: int| 0 <= i < rest.len() implies '\0' <= #[trigger] rest[i] <= '\u{7f}' by {
                    assert(rest[i] == s[i + 1]);
                }
            }
            assert('\0' <= s[0] <= '\u{7f}');
        }
    } else if s.len() > 0 && is_ascii_chars(s) {
        assert('\0' <= s[0] <= '\u{7f}');
    }
}

/// The short form of an id is a prefix of it that takes at most eight bytes
/// in UTF-8; for an id of ASCII characters it is its first eight characters,
/// or the whole id when it is shorter.
pub proof fn law_short_id_fits(id: Seq<char>)
    ensures
        short_id(id).len() <= id.len(),
        short_id(id) == id.take(short_id(id).len() as int),
        encode_utf8(short_id(id)).len() <= 8,
        is_ascii_chars(id) ==> short_id(id) == first_chars(id, 8),
{
    lemma_chars_within(id, 8);
    if is_ascii_chars(id) && id.len() <= 8 {
        assert(id.take(id.len() as int) =~= id);
    }
}

/// The short form of an id: its first eight bytes, as whole characters.
pub open spec fn short_id(id: Seq<char>) -> Seq<char> {
    first_bytes(id, 8)
}

/// The short form of an id: its first eight bytes, as whole characters.
pub fn short_id_text(id: &str) -> (r: String)
    ensures
        r@ == short_id(id@),
{
    first_bytes_text(id, 8)
}

/// A text cut to at most `limit` characters, marked with "..." when it was cut.
pub open spec fn preview(s: Seq<char>, limit: int) -> Seq<char> {
    if s.len() > limit {
        s.take(limit) + "..."@
    } else {
        s
    }
}

/// A text cut to at most `limit` characters, marked with "..." when it was cut.
pub fn preview_text(s: &str, limit: usize) -> (r: String)
    ensures
        r@ == preview(s@, limit as int),
{
    if s.unicode_len() > limit {
        let mut r = first_chars_text(s, limit);
        r.append("...");
        r
    } else {
        s.to_owned()
    }
}


// ── Hex ──

/// The lowercase hex digit of a number below sixteen.
pub open spec fn hex_digit(d: int) -> Seq<char> {
    if d < 10 {
        digit(d as nat)
    } else if d == 10 {
        "a"@
    } else if d == 11 {
        "b"@
    } else if d == 12 {
        "c"@
    } else if d == 13 {
        "d"@
    } else if d == 14 {
        "e"@
    } else {
        "f"@
    }
}

/// Bytes in lowercase hex, two digits each.
pub open spec fn hex_lower(bytes: Seq<u8>) -> Seq<char>
    decreases bytes.len(),
{
    if bytes.len() == 0 {
        Seq::empty()
    } else {
        hex_lower(bytes.drop_last()) + hex_digit(bytes.last() as int / 16) + hex_digit(
            bytes.last() as int % 16,
        )
    }
}

fn hex_digit_str(d: u8) -> (s: &'static str)
    requires
        d < 16,
    ensures
        s@ == hex_digit(d as int),
{
    if d < 10 {
        digit_str(d as usize)
    } else if d == 10 {
        "a"
    } else if d == 11 {
        "b"
    } else if d == 12 {
        "c"
    } else if d == 13 {
        "d"
    } else if d == 14 {
        "e"
    } else {
        "f"
    }
}

/// Bytes in lowercase hex, two digits each.
pub fn hex_lower_text(bytes: &[u8]) -> (r: String)
    ensures
        r@ == hex_lower(bytes@),
{
    let mut r = String::new();
    let n = bytes.len();
    let mut i: usize = 0;
    while i < n
        invariant
            0 <= i <= n,
            n == bytes@.len(),
            r@ == hex_lower(bytes@.take(i as int)),
        decreases n - i,
    {
        proof {
            assert(bytes@.take(i + 1).drop_last() =~= bytes@.take(i as int));
        }
        let b = bytes[i];
        r.append(hex_digit_str(b / 16));
        r.append(hex_digit_str(b % 16));
        i += 1;
    }
    proof {
        assert(bytes@.take(n as int) =~= bytes@);
    }
    r
}

} // verus!
