use vstd::prelude::*;
use vstd::string::*;

verus! {

/// `String::push`: appends one character.
#[verifier::external_body]
pub(crate) fn push_char(s: &mut String, c: char)
    ensures
        final(s)@ == old(s)@.push(c),
{
    s.push(c);
}

/// Appends a string slice.
pub fn push_str(s: &mut String, t: &str)
    ensures
        final(s)@ == old(s)@ + t@,
{
    s.append(t);
}

/// The characters of a string slice, in order.
pub fn chars_of(s: &str) -> (r: Vec<char>)
    ensures
        r@ == s@,
{
    let mut out: Vec<char> = Vec::new();
    for c in iter: s.chars()
        invariant
            out@ == iter.seq().take(iter.index() as int),
    {
        out.push(c);
    }
    out
}

/// A string holding exactly the given characters.
pub fn string_of(v: &Vec<char>) -> (r: String)
    ensures
        r@ == v@,
{
    let mut out = String::new();
    let mut i: usize = 0;
    while i < v.len()
        invariant
            i <= v.len(),
            out@ == v@.take(i as int),
        decreases v.len() - i,
    {
        push_char(&mut out, v[i]);
        i += 1;
        assert(out@ == v@.take(i as int));
    }
    assert(v@.take(v.len() as int) == v@);
    out
}

/// Replaces every `:` and `/` by `-`.
pub open spec fn spec_safe_filename(title: Seq<char>) -> Seq<char> {
    title.map_values(|c: char| if c == ':' || c == '/' { '-' } else { c })
}

pub fn safe_filename(title: &str) -> (r: String)
    ensures
        r@ == spec_safe_filename(title@),
{
    let cs = chars_of(title);
    let mut out = String::new();
    let mut i: usize = 0;
    while i < cs.len()
        invariant
            i <= cs.len(),
            cs@ == title@,
            out@ == spec_safe_filename(title@).take(i as int),
        decreases cs.len() - i,
    {
        let c = cs[i];
        if c == ':' || c == '/' {
            push_char(&mut out, '-');
        } else {
            push_char(&mut out, c);
        }
        i += 1;
        assert(out@ == spec_safe_filename(title@).take(i as int));
    }
    assert(spec_safe_filename(title@).take(cs.len() as int) == spec_safe_filename(title@));
    out
}

/// A sanitised title is safe as a file name: it holds no `:` and no `/`,
/// has the title's length, and keeps every other character in place.
pub proof fn law_safe_filename_clean(title: Seq<char>)
    ensures
        spec_safe_filename(title).len() == title.len(),
        forall|i: int|
            0 <= i < title.len() ==> {
                let c = #[trigger] spec_safe_filename(title)[i];
                &&& c != ':'
                &&& c != '/'
                &&& (title[i] != ':' && title[i] != '/' ==> c == title[i])
            },
{
}

} // verus!

verus! {

/// `n` spaces.
pub open spec fn spaces(n: nat) -> Seq<char> {
    Seq::new(n, |i: int| ' ')
}

/// `" ".repeat(n)`.
pub fn space_string(n: usize) -> (r: String)
    ensures
        r@ == spaces(n as nat),
{
    let mut out = String::new();
    let mut i: usize = 0;
    while i < n
        invariant
            i <= n,
            out@ == spaces(i as nat),
        decreases n - i,
    {
        push_char(&mut out, ' ');
        i += 1;
        assert(out@ =~= spaces(i as nat));
    }
    out
}

/// A `String` copy of a string slice.
pub fn owned(s: &str) -> (r: String)
    ensures
        r@ == s@,
{
    let mut out = String::new();
    push_str(&mut out, s);
    assert(out@ =~= s@);
    out
}

} // verus!

verus! {

// ── Concatenation over sequences ────────────────────────────────────────────

/// `f` applied to each element, the results concatenated in order.
pub open spec fn concat_map<T>(s: Seq<T>, f: spec_fn(T) -> Seq<char>) -> Seq<char>
    decreases s.len(),
{
    if s.len() == 0 {
        Seq::empty()
    } else {
        concat_map(s.drop_last(), f) + f(s.last())
    }
}

/// `piece` stands in `s` at position `p`.
pub open spec fn occurs_at(s: Seq<char>, p: int, piece: Seq<char>) -> bool {
    0 <= p && p + piece.len() <= s.len() && s.subrange(p, p + piece.len()) == piece
}

/// `piece` stands somewhere in `s`.
pub open spec fn occurs_in(s: Seq<char>, piece: Seq<char>) -> bool {
    exists|p: int| occurs_at(s, p, piece)
}

/// `a` and then `b` stand in `s`, the whole of `a` before the start of `b`.
pub open spec fn in_order(s: Seq<char>, a: Seq<char>, b: Seq<char>) -> bool {
    exists|p: int, q: int| occurs_at(s, p, a) && occurs_at(s, q, b) && p + a.len() <= q
}

/// What `f` gives for the first `k` elements begins what it gives for all.
pub proof fn lemma_concat_map_prefix<T>(s: Seq<T>, f: spec_fn(T) -> Seq<char>, k: int)
    requires
        0 <= k <= s.len(),
    ensures
        concat_map(s.take(k), f).len() <= concat_map(s, f).len(),
        concat_map(s, f).take(concat_map(s.take(k), f).len() as int) == concat_map(s.take(k), f),
    decreases s.len(),
{
    if k == s.len() {
        assert(s.take(k) =~= s);
        assert(concat_map(s, f).take(concat_map(s, f).len() as int) =~= concat_map(s, f));
    } else {
        lemma_concat_map_prefix(s.drop_last(), f, k);
        assert(s.drop_last().take(k) =~= s.take(k));
        let a = concat_map(s.take(k), f);
        assert((concat_map(s.drop_last(), f) + f(s.last())).take(a.len() as int) =~= concat_map(
            s.drop_last(),
            f,
        ).take(a.len() as int));
    }
}

/// Each element's piece stands in the concatenation where the pieces of the
/// elements before it end.
pub proof fn lemma_concat_map_piece<T>(s: Seq<T>, f: spec_fn(T) -> Seq<char>, i: int)
    requires
        0 <= i < s.len(),
    ensures
        occurs_at(concat_map(s, f), concat_map(s.take(i), f).len() as int, f(s[i])),
        concat_map(s.take(i + 1), f).len() == concat_map(s.take(i), f).len() + f(s[i]).len(),
{
    assert(s.take(i + 1).drop_last() =~= s.take(i));
    assert(s.take(i + 1).last() == s[i]);
    lemma_concat_map_prefix(s, f, i + 1);
    let a = concat_map(s.take(i), f);
    let full = concat_map(s, f);
    let b = concat_map(s.take(i + 1), f);
    assert(b == a + f(s[i]));
    assert(full.subrange(a.len() as int, (a.len() + f(s[i]).len()) as int) =~= b.subrange(
        a.len() as int,
        b.len() as int,
    ));
    assert(b.subrange(a.len() as int, b.len() as int) =~= f(s[i]));
}

/// The pieces of two elements stand in the concatenation in the elements'
/// order.
pub proof fn lemma_concat_map_in_order<T>(s: Seq<T>, f: spec_fn(T) -> Seq<char>, i: int, j: int)
    requires
        0 <= i < j < s.len(),
    ensures
        in_order(concat_map(s, f), f(s[i]), f(s[j])),
{
    lemma_concat_map_piece(s, f, i);
    lemma_concat_map_piece(s, f, j);
    lemma_concat_map_prefix(s.take(j), f, i + 1);
    assert(s.take(j).take(i + 1) =~= s.take(i + 1));
    let p = concat_map(s.take(i), f).len() as int;
    let q = concat_map(s.take(j), f).len() as int;
    assert(occurs_at(concat_map(s, f), p, f(s[i])) && occurs_at(concat_map(s, f), q, f(s[j])) && p
        + f(s[i]).len() <= q);
}

/// A piece that stands in `a` stands in `x + a + y`, shifted by `x`'s length.
pub proof fn lemma_in_order_within(a: Seq<char>, x: Seq<char>, y: Seq<char>, u: Seq<char>, v: Seq<char>)
    requires
        in_order(a, u, v),
    ensures
        in_order(x + a + y, u, v),
{
    let (p, q) = choose|p: int, q: int| occurs_at(a, p, u) && occurs_at(a, q, v) && p + u.len() <= q;
    let s = x + a + y;
    assert(s.subrange(x.len() + p, x.len() + p + u.len()) =~= a.subrange(p, p + u.len()));
    assert(s.subrange(x.len() + q, x.len() + q + v.len()) =~= a.subrange(q, q + v.len()));
    assert(occurs_at(s, x.len() + p, u) && occurs_at(s, x.len() + q, v));
}

/// The strings of `list`, separated by `sep`.
pub open spec fn join_with(list: Seq<Seq<char>>, sep: Seq<char>) -> Seq<char>
    decreases list.len(),
{
    if list.len() == 0 {
        Seq::empty()
    } else if list.len() == 1 {
        list[0]
    } else {
        join_with(list.drop_last(), sep) + sep + list.last()
    }
}

/// The lengths of the strings of `list`, summed.
pub open spec fn total_len(list: Seq<Seq<char>>) -> nat
    decreases list.len(),
{
    if list.len() == 0 {
        0
    } else {
        total_len(list.drop_last()) + list.last().len()
    }
}

/// A joined list is as long as its elements and one separator between each
/// two of them.
pub proof fn lemma_join_len(list: Seq<Seq<char>>, sep: Seq<char>)
    requires
        list.len() > 0,
    ensures
        join_with(list, sep).len() == total_len(list) + (list.len() - 1) * sep.len(),
    decreases list.len(),
{
    let d = list.drop_last();
    if list.len() == 1 {
        assert(d.len() == 0);
        assert(total_len(d) == 0);
        assert(list.last() == list[0]);
    } else {
        lemma_join_len(d, sep);
        let n: int = list.len() - 1;
        assert((n - 1) * sep.len() + sep.len() == n * sep.len()) by (nonlinear_arith);
        assert(d.len() == n);
        assert(join_with(list, sep) == join_with(d, sep) + sep + list.last());
    }
}

/// A piece that stands in `a` stands in `x + a + y`, shifted by `x`'s length.
pub proof fn lemma_occurs_within(a: Seq<char>, x: Seq<char>, y: Seq<char>, p: int, u: Seq<char>)
    requires
        occurs_at(a, p, u),
    ensures
        occurs_at(x + a + y, x.len() + p, u),
{
    let s = x + a + y;
    assert(s.subrange(x.len() + p, x.len() + p + u.len()) =~= a.subrange(p, p + u.len()));
}

/// A joined list ends with its last element.
pub proof fn lemma_join_ends_with_last(list: Seq<Seq<char>>, sep: Seq<char>)
    requires
        list.len() > 0,
    ensures
        join_with(list, sep).len() >= list.last().len(),
        occurs_at(join_with(list, sep), join_with(list, sep).len() - list.last().len(), list.last()),
{
    let j = join_with(list, sep);
    if list.len() == 1 {
        assert(j.subrange(0, j.len() as int) =~= j);
    } else {
        let a = join_with(list.drop_last(), sep) + sep;
        assert(j == a + list.last());
        assert(j.subrange(a.len() as int, j.len() as int) =~= list.last());
    }
}

/// Every element of a joined list stands in the joined string.
pub proof fn lemma_join_occurs(list: Seq<Seq<char>>, sep: Seq<char>, k: int)
    requires
        0 <= k < list.len(),
    ensures
        occurs_in(join_with(list, sep), list[k]),
    decreases list.len(),
{
    lemma_join_ends_with_last(list, sep);
    let j = join_with(list, sep);
    if k == list.len() - 1 {
        assert(occurs_at(j, j.len() - list.last().len(), list[k]));
    } else {
        let d = list.drop_last();
        lemma_join_occurs(d, sep, k);
        let p = choose|p: int| occurs_at(join_with(d, sep), p, d[k]);
        assert(j == join_with(d, sep) + sep + list.last());
        lemma_occurs_within(join_with(d, sep), Seq::empty(), sep + list.last(), p, d[k]);
        assert(Seq::<char>::empty() + join_with(d, sep) + (sep + list.last()) =~= j);
        assert(occurs_at(j, p, list[k]));
    }
}

/// Of two elements of a joined list, the earlier one, followed by the
/// separator, comes wholly before the later one.
pub proof fn lemma_join_in_order(list: Seq<Seq<char>>, sep: Seq<char>, k: int, l: int)
    requires
        0 <= k < l < list.len(),
    ensures
        in_order(join_with(list, sep), list[k] + sep, list[l]),
    decreases list.len(),
{
    let d = list.drop_last();
    let jd = join_with(d, sep);
    let j = join_with(list, sep);
    assert(j == jd + sep + list.last());
    let u = list[k] + sep;
    if l < list.len() - 1 {
        lemma_join_in_order(d, sep, k, l);
        lemma_in_order_within(jd, Seq::empty(), sep + list.last(), u, list[l]);
        assert(Seq::<char>::empty() + jd + (sep + list.last()) =~= j);
    } else {
        // where the element before the last ends in `jd`
        let p: int = if k == list.len() - 2 {
            lemma_join_ends_with_last(d, sep);
            jd.len() - d.last().len()
        } else {
            lemma_join_in_order(d, sep, k, list.len() - 2);
            lemma_join_ends_with_last(d, sep);
            let (p, q) = choose|p: int, q: int|
                #[trigger] occurs_at(jd, p, u) && #[trigger] occurs_at(jd, q, d[list.len() - 2]) && p + u.len() <= q;
            p
        };
        assert(p + list[k].len() <= jd.len());
        assert(j.subrange(p, p + list[k].len()) =~= jd.subrange(p, p + list[k].len()));
        assert(j.subrange(p, p + u.len()) =~= u) by {
            assert(jd.subrange(p, p + list[k].len()) == list[k]) by {
                if k == list.len() - 2 {
                    assert(d.last() == list[k]);
                } else {
                    assert(jd.subrange(p, p + list[k].len()) =~= jd.subrange(p, p + u.len()).subrange(
                        0,
                        list[k].len() as int,
                    ));
                }
            }
            if k == list.len() - 2 {
                assert(p + list[k].len() == jd.len());
            } else {
                assert(jd.subrange(p, p + u.len()) == u);
                assert forall|t: int| 0 <= t < sep.len() implies j[p + list[k].len() + t] == sep[t] by {
                    assert(jd.subrange(p, p + u.len())[list[k].len() + t] == u[list[k].len() + t]);
                }
            }
        }
        let q: int = (jd.len() + sep.len()) as int;
        assert(j.subrange(q, q + list[l].len()) =~= list.last());
        assert(occurs_at(j, p, u) && occurs_at(j, q, list[l]));
    }
}

/// The views of a vector of strings.
pub open spec fn views(v: Seq<String>) -> Seq<Seq<char>> {
    v.map_values(|s: String| s@)
}

/// `list.join(sep)`.
pub fn join_strings(list: &Vec<String>, sep: &str) -> (r: String)
    ensures
        r@ == join_with(views(list@), sep@),
{
    let mut out = String::new();
    let mut i: usize = 0;
    while i < list.len()
        invariant
            i <= list@.len(),
            out@ == join_with(views(list@.take(i as int)), sep@),
        decreases list.len() - i,
    {
        assert(views(list@.take(i + 1)).drop_last() =~= views(list@.take(i as int)));
        if i != 0 {
            push_str(&mut out, sep);
        }
        push_str(&mut out, list[i].as_str());
        i += 1;
    }
    assert(list@.take(list@.len() as int) =~= list@);
    out
}

// ── Decimal numbers ─────────────────────────────────────────────────────────

pub open spec fn digit_char(d: nat) -> char {
    if d == 0 { '0' } else if d == 1 { '1' } else if d == 2 { '2' } else if d == 3 { '3' }
    else if d == 4 { '4' } else if d == 5 { '5' } else if d == 6 { '6' } else if d == 7 { '7' }
    else if d == 8 { '8' } else { '9' }
}

/// The decimal digits of `n`, as `format!("{n}")` writes them.
pub open spec fn decimal(n: nat) -> Seq<char>
    decreases n,
{
    if n < 10 {
        seq![digit_char(n)]
    } else {
        decimal(n / 10).push(digit_char(n % 10))
    }
}

fn digit(d: u64) -> (c: char)
    requires
        d < 10,
    ensures
        c == digit_char(d as nat),
{
    if d == 0 { '0' } else if d == 1 { '1' } else if d == 2 { '2' } else if d == 3 { '3' }
    else if d == 4 { '4' } else if d == 5 { '5' } else if d == 6 { '6' } else if d == 7 { '7' }
    else if d == 8 { '8' } else { '9' }
}

/// Appends the decimal digits of `n`.
pub fn push_decimal(out: &mut String, n: u64)
    ensures
        final(out)@ == old(out)@ + decimal(n as nat),
    decreases n,
{
    if n >= 10 {
        push_decimal(out, n / 10);
    }
    push_char(out, digit(n % 10));
    assert(final(out)@ =~= old(out)@ + decimal(n as nat));
}

// ── Whitespace and trimming ─────────────────────────────────────────────────

/// Unicode `White_Space`, the property that `char::is_whitespace` tests.
pub open spec fn is_ws(c: char) -> bool {
    let u = c as u32;
    (0x9 <= u <= 0xD) || u == 0x20 || u == 0x85 || u == 0xA0 || u == 0x1680 || (0x2000 <= u
        <= 0x200A) || u == 0x2028 || u == 0x2029 || u == 0x202F || u == 0x205F || u == 0x3000
}

pub fn is_whitespace(c: char) -> (r: bool)
    ensures
        r == is_ws(c),
{
    let u = c as u32;
    (0x9 <= u && u <= 0xD) || u == 0x20 || u == 0x85 || u == 0xA0 || u == 0x1680 || (0x2000 <= u
        && u <= 0x200A) || u == 0x2028 || u == 0x2029 || u == 0x202F || u == 0x205F || u == 0x3000
}

pub open spec fn trim_start(s: Seq<char>) -> Seq<char>
    decreases s.len(),
{
    if s.len() > 0 && is_ws(s[0]) {
        trim_start(s.drop_first())
    } else {
        s
    }
}

pub open spec fn trim_end(s: Seq<char>) -> Seq<char>
    decreases s.len(),
{
    if s.len() > 0 && is_ws(s.last()) {
        trim_end(s.drop_last())
    } else {
        s
    }
}

/// `str::trim`: leading and trailing white space removed.
pub open spec fn trim(s: Seq<char>) -> Seq<char> {
    trim_end(trim_start(s))
}

/// The characters of `s` from `from` (inclusive) to `to` (exclusive).
pub fn sub_chars(s: &Vec<char>, from: usize, to: usize) -> (r: Vec<char>)
    requires
        from <= to <= s@.len(),
    ensures
        r@ == s@.subrange(from as int, to as int),
{
    let mut out: Vec<char> = Vec::new();
    let mut i = from;
    while i < to
        invariant
            from <= i <= to <= s@.len(),
            out@ == s@.subrange(from as int, i as int),
        decreases to - i,
    {
        out.push(s[i]);
        i += 1;
        assert(out@ =~= s@.subrange(from as int, i as int));
    }
    out
}

/// The characters of `s` with leading and trailing white space removed.
pub fn trim_chars(s: &Vec<char>) -> (r: Vec<char>)
    ensures
        r@ == trim(s@),
{
    let mut i: usize = 0;
    assert(s@.skip(0) =~= s@);
    while i < s.len() && is_whitespace(s[i])
        invariant
            i <= s@.len(),
            trim_start(s@) == trim_start(s@.skip(i as int)),
        decreases s.len() - i,
    {
        assert(s@.skip(i as int).drop_first() =~= s@.skip(i + 1));
        i += 1;
    }
    let ghost st = s@.skip(i as int);
    assert(trim_start(s@) == st);
    let mut j: usize = s.len();
    assert(st.take((j - i) as int) =~= st);
    while j > i && is_whitespace(s[j - 1])
        invariant
            i <= j <= s@.len(),
            st == s@.skip(i as int),
            trim_end(st) == trim_end(st.take((j - i) as int)),
        decreases j,
    {
        assert(st.take((j - i) as int).drop_last() =~= st.take((j - 1 - i) as int));
        j -= 1;
    }
    assert(st.take((j - i) as int) =~= s@.subrange(i as int, j as int));
    sub_chars(s, i, j)
}

/// `s.trim()` as an owned string.
pub fn trim_str(s: &str) -> (r: String)
    ensures
        r@ == trim(s@),
{
    let cs = chars_of(s);
    let t = trim_chars(&cs);
    string_of(&t)
}

/// `s.trim().is_empty()`.
pub fn is_blank(s: &str) -> (r: bool)
    ensures
        r == (trim(s@).len() == 0),
{
    let t = trim_str(s);
    t.as_str().is_empty()
}

} // verus!

verus! {

// ── Prefixes, suffixes, separators ─────────────────────────────────────────

pub open spec fn has_prefix(s: Seq<char>, p: Seq<char>) -> bool {
    p.len() <= s.len() && s.take(p.len() as int) == p
}

pub open spec fn has_suffix(s: Seq<char>, p: Seq<char>) -> bool {
    p.len() <= s.len() && s.skip(s.len() - p.len()) == p
}

/// `s.starts_with(p)`.
pub fn starts_with(s: &str, p: &str) -> (r: bool)
    ensures
        r == has_prefix(s@, p@),
{
    let a = chars_of(s);
    let b = chars_of(p);
    if b.len() > a.len() {
        return false;
    }
    let mut i: usize = 0;
    while i < b.len()
        invariant
            a@ == s@,
            b@ == p@,
            b.len() <= a.len(),
            i <= b.len(),
            forall|k: int| 0 <= k < i ==> a@[k] == b@[k],
        decreases b.len() - i,
    {
        if a[i] != b[i] {
            assert(s@.take(p@.len() as int)[i as int] != p@[i as int]);
            return false;
        }
        i += 1;
    }
    assert(s@.take(p@.len() as int) =~= p@);
    true
}

/// `s.ends_with(p)`.
pub fn ends_with(s: &str, p: &str) -> (r: bool)
    ensures
        r == has_suffix(s@, p@),
{
    let a = chars_of(s);
    let b = chars_of(p);
    if b.len() > a.len() {
        return false;
    }
    let off = a.len() - b.len();
    let mut i: usize = 0;
    while i < b.len()
        invariant
            a@ == s@,
            b@ == p@,
            b.len() <= a.len(),
            off == a.len() - b.len(),
            i <= b.len(),
            forall|k: int| 0 <= k < i ==> a@[off + k] == b@[k],
        decreases b.len() - i,
    {
        if a[off + i] != b[i] {
            assert(s@.skip(off as int)[i as int] != p@[i as int]);
            return false;
        }
        i += 1;
    }
    assert(s@.skip(off as int) =~= p@);
    true
}

/// The part of `s` after its last `c`; all of `s` when `c` does not occur.
pub open spec fn after_last(s: Seq<char>, c: char) -> Seq<char>
    decreases s.len(),
{
    if s.len() == 0 {
        Seq::empty()
    } else if s.last() == c {
        Seq::empty()
    } else {
        after_last(s.drop_last(), c).push(s.last())
    }
}

/// `s.rsplit(c).next()`: the part after the last `c`.
pub fn after_last_char(s: &str, c: char) -> (r: String)
    ensures
        r@ == after_last(s@, c),
{
    let cs = chars_of(s);
    let mut j: usize = cs.len();
    assert(s@.take(j as int) =~= s@);
    assert(s@.subrange(j as int, j as int) =~= Seq::<char>::empty());
    assert(after_last(s@, c) =~= after_last(s@.take(j as int), c) + s@.subrange(j as int, s@.len() as int));
    while j > 0 && cs[j - 1] != c
        invariant
            cs@ == s@,
            j <= cs@.len(),
            after_last(s@, c) == after_last(s@.take(j as int), c) + s@.subrange(j as int, s@.len() as int),
        decreases j,
    {
        assert(s@.take(j as int).drop_last() =~= s@.take(j - 1));
        assert(s@.subrange(j - 1, s@.len() as int) =~= seq![s@[j - 1]] + s@.subrange(j as int, s@.len() as int));
        assert(after_last(s@.take(j as int), c) == after_last(s@.take(j - 1), c).push(s@[j - 1]));
        assert(after_last(s@.take(j - 1), c).push(s@[j - 1]) + s@.subrange(j as int, s@.len() as int)
            =~= after_last(s@.take(j - 1), c) + s@.subrange(j - 1, s@.len() as int));
        j -= 1;
    }
    assert(after_last(s@.take(j as int), c) =~= Seq::<char>::empty());
    let tail = sub_chars(&cs, j, cs.len());
    assert(after_last(s@, c) =~= tail@);
    string_of(&tail)
}

/// Every `from` in `s` replaced by `to`.
pub open spec fn replace_char(s: Seq<char>, from: char, to: char) -> Seq<char> {
    s.map_values(|c: char| if c == from { to } else { c })
}

pub fn replace_char_str(s: &str, from: char, to: char) -> (r: String)
    ensures
        r@ == replace_char(s@, from, to),
{
    let cs = chars_of(s);
    let mut out = String::new();
    let mut i: usize = 0;
    while i < cs.len()
        invariant
            cs@ == s@,
            i <= cs@.len(),
            out@ == replace_char(s@, from, to).take(i as int),
        decreases cs.len() - i,
    {
        if cs[i] == from {
            push_char(&mut out, to);
        } else {
            push_char(&mut out, cs[i]);
        }
        i += 1;
        assert(out@ =~= replace_char(s@, from, to).take(i as int));
    }
    assert(replace_char(s@, from, to).take(cs.len() as int) =~= replace_char(s@, from, to));
    out
}

} // verus!

verus! {

// ── Search and replace, padding ─────────────────────────────────────────────

/// Whether `p` occurs in `s`.
pub open spec fn contains(s: Seq<char>, p: Seq<char>) -> bool {
    exists|i: int| 0 <= i && i + p.len() <= s.len() && #[trigger] s.subrange(i, i + p.len()) == p
}

fn matches_at(cs: &Vec<char>, i: usize, p: &Vec<char>) -> (r: bool)
    requires
        i <= cs@.len(),
    ensures
        r == (i + p@.len() <= cs@.len() && cs@.subrange(i as int, i + p@.len()) == p@),
{
    if p.len() > cs.len() - i {
        return false;
    }
    let mut k: usize = 0;
    let n = cs.len();
    while k < p.len()
        invariant
            i + p@.len() <= cs@.len(),
            n == cs@.len(),
            k <= p@.len(),
            forall|j: int| 0 <= j < k ==> cs@[i + j] == p@[j],
        decreases p.len() - k,
    {
        if cs[i + k] != p[k] {
            assert(cs@.subrange(i as int, i + p@.len())[k as int] != p@[k as int]);
            return false;
        }
        k += 1;
    }
    assert(cs@.subrange(i as int, i + p@.len()) =~= p@);
    true
}

/// `s.contains(p)`.
pub fn contains_str(s: &str, p: &str) -> (r: bool)
    ensures
        r == contains(s@, p@),
{
    let cs = chars_of(s);
    let ps = chars_of(p);
    let mut i: usize = 0;
    while i < cs.len()
        invariant
            cs@ == s@,
            ps@ == p@,
            i <= cs@.len(),
            forall|j: int| 0 <= j < i ==> !(j + p@.len() <= s@.len() && #[trigger] s@.subrange(j, j + p@.len()) == p@),
        decreases cs.len() - i,
    {
        if matches_at(&cs, i, &ps) {
            return true;
        }
        i += 1;
    }
    if matches_at(&cs, i, &ps) {
        return true;
    }
    assert forall|j: int| 0 <= j && j + p@.len() <= s@.len() implies #[trigger] s@.subrange(j, j + p@.len()) != p@ by {
        assert(j <= i);
    }
    false
}

/// `s.replace(p, t)` for a non-empty `p`: matches taken from left to right,
/// without overlap.
pub open spec fn replace_all(s: Seq<char>, p: Seq<char>, t: Seq<char>) -> Seq<char>
    decreases s.len(),
{
    if s.len() == 0 || p.len() == 0 {
        s
    } else if has_prefix(s, p) {
        t + replace_all(s.skip(p.len() as int), p, t)
    } else {
        seq![s[0]] + replace_all(s.drop_first(), p, t)
    }
}

pub fn replace_str(s: &str, p: &str, t: &str) -> (r: String)
    requires
        p@.len() > 0,
    ensures
        r@ == replace_all(s@, p@, t@),
{
    let cs = chars_of(s);
    let ps = chars_of(p);
    let mut out = String::new();
    let mut i: usize = 0;
    assert(s@.skip(0) =~= s@);
    while i < cs.len()
        invariant
            cs@ == s@,
            ps@ == p@,
            p@.len() > 0,
            i <= cs@.len(),
            replace_all(s@, p@, t@) == out@ + replace_all(s@.skip(i as int), p@, t@),
        decreases cs.len() - i,
    {
        let ghost rest = s@.skip(i as int);
        if matches_at(&cs, i, &ps) {
            assert(rest.take(p@.len() as int) =~= cs@.subrange(i as int, i + p@.len()));
            assert(rest.skip(p@.len() as int) =~= s@.skip(i + p@.len()));
            push_str(&mut out, t);
            i += ps.len();
        } else {
            assert(rest.take(p@.len() as int) =~= cs@.subrange(i as int, i + p@.len()) || p@.len() > rest.len());
            assert(rest.drop_first() =~= s@.skip(i + 1));
            assert(rest[0] == cs@[i as int]);
            push_char(&mut out, cs[i]);
            i += 1;
        }
        assert(replace_all(s@, p@, t@) =~= out@ + replace_all(s@.skip(i as int), p@, t@));
    }
    assert(s@.skip(i as int) =~= Seq::<char>::empty());
    assert(out@ + Seq::<char>::empty() =~= out@);
    out
}

/// `format!("{s:<width}")`: `s` followed by spaces up to `width` characters.
pub open spec fn pad_right(s: Seq<char>, width: nat) -> Seq<char> {
    if s.len() >= width {
        s
    } else {
        s + spaces((width - s.len()) as nat)
    }
}

pub fn pad_right_str(s: &str, width: usize) -> (r: String)
    ensures
        r@ == pad_right(s@, width as nat),
{
    let cs = chars_of(s);
    let mut out = string_of(&cs);
    if cs.len() < width {
        let pad = space_string(width - cs.len());
        push_str(&mut out, pad.as_str());
    }
    out
}

} // verus!
