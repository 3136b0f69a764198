use vstd::prelude::*;

use crate::pptx::{file_basename, spec_file_basename, ExtractedAsset};
use crate::text::{chars_of, ends_with, has_prefix, has_suffix, owned, push_str, starts_with, string_of, sub_chars, views};

verus! {

// ── Decimal parsing ─────────────────────────────────────────────────────────

pub open spec fn is_digit(c: char) -> bool {
    '0' <= c <= '9'
}

pub open spec fn digit_value(c: char) -> nat {
    (c as u32 - '0' as u32) as nat
}

pub open spec fn digits_value(s: Seq<char>) -> nat
    decreases s.len(),
{
    if s.len() == 0 {
        0
    } else {
        digits_value(s.drop_last()) * 10 + digit_value(s.last())
    }
}

pub open spec fn all_digits(d: Seq<char>) -> bool {
    forall|i: int| 0 <= i < d.len() ==> is_digit(#[trigger] d[i])
}

/// `s.parse::<usize>()`: an optional `+` followed by at least one ASCII digit
/// and nothing else, whose value fits a `usize`.
pub open spec fn spec_parse_usize(s: Seq<char>) -> Option<nat> {
    let d = if s.len() > 0 && s[0] == '+' { s.drop_first() } else { s };
    if d.len() > 0 && all_digits(d) && digits_value(d) <= usize::MAX {
        Some(digits_value(d))
    } else {
        None
    }
}

pub proof fn lemma_digits_value_monotone(s: Seq<char>, i: int)
    requires
        0 <= i <= s.len(),
        all_digits(s),
    ensures
        digits_value(s.take(i)) <= digits_value(s),
    decreases s.len() - i,
{
    if i < s.len() {
        lemma_digits_value_monotone(s, i + 1);
        assert(s.take(i + 1).drop_last() =~= s.take(i));
    } else {
        assert(s.take(i) =~= s);
    }
}

/// Parses a decimal `usize` as `str::parse` does.
pub fn parse_usize(s: &str) -> (r: Option<usize>)
    ensures
        r matches Some(n) ==> spec_parse_usize(s@) == Some(n as nat),
        r is None ==> spec_parse_usize(s@) is None,
{
    let cs = chars_of(s);
    let start: usize = if cs.len() > 0 && cs[0] == '+' { 1 } else { 0 };
    let ghost d = if s@.len() > 0 && s@[0] == '+' { s@.drop_first() } else { s@ };
    assert(d =~= s@.skip(start as int));
    if start >= cs.len() {
        return None;
    }
    let mut value: usize = 0;
    let mut i = start;
    while i < cs.len()
        invariant
            cs@ == s@,
            start <= i <= cs@.len(),
            d == s@.skip(start as int),
            d == (if s@.len() > 0 && s@[0] == '+' { s@.drop_first() } else { s@ }),
            d.len() > 0,
            forall|k: int| 0 <= k < i - start ==> is_digit(d[k]),
            value == digits_value(d.take(i - start)),
        decreases cs.len() - i,
    {
        let c = cs[i];
        if !('0' <= c && c <= '9') {
            assert(!is_digit(d[i - start]));
            assert(!all_digits(d));
            return None;
        }
        let dv = (c as u32 - '0' as u32) as usize;
        assert(d.take(i + 1 - start).drop_last() =~= d.take(i - start));
        assert(d.take(i + 1 - start).last() == c);
        let next = match value.checked_mul(10) {
            Some(v) => v.checked_add(dv),
            None => None,
        };
        match next {
            Some(v) => {
                value = v;
            },
            None => {
                proof {
                    assert(digits_value(d.take(i + 1 - start)) > usize::MAX);
                    if all_digits(d) {
                        lemma_digits_value_monotone(d, i + 1 - start);
                    }
                }
                return None;
            },
        }
        i += 1;
    }
    assert(d.take(i - start) =~= d);
    Some(value)
}

// ── Trimming repeated affixes ───────────────────────────────────────────────

/// `s.trim_start_matches(p)` for a non-empty `p`: every leading copy removed.
pub open spec fn trim_start_matches(s: Seq<char>, p: Seq<char>) -> Seq<char>
    decreases s.len(),
{
    if p.len() > 0 && has_prefix(s, p) {
        trim_start_matches(s.skip(p.len() as int), p)
    } else {
        s
    }
}

/// `s.trim_end_matches(p)` for a non-empty `p`: every trailing copy removed.
pub open spec fn trim_end_matches(s: Seq<char>, p: Seq<char>) -> Seq<char>
    decreases s.len(),
{
    if p.len() > 0 && has_suffix(s, p) {
        trim_end_matches(s.take(s.len() - p.len()), p)
    } else {
        s
    }
}

fn has_prefix_at(cs: &Vec<char>, from: usize, to: usize, p: &Vec<char>) -> (r: bool)
    requires
        from <= to <= cs@.len(),
    ensures
        r == has_prefix(cs@.subrange(from as int, to as int), p@),
{
    if p.len() > to - from {
        return false;
    }
    let mut k: usize = 0;
    while k < p.len()
        invariant
            from <= to <= cs@.len(),
            p@.len() <= to - from,
            k <= p@.len(),
            forall|j: int| 0 <= j < k ==> cs@[from + j] == p@[j],
        decreases p.len() - k,
    {
        if cs[from + k] != p[k] {
            assert(cs@.subrange(from as int, to as int).take(p@.len() as int)[k as int] != p@[k as int]);
            return false;
        }
        k += 1;
    }
    assert(cs@.subrange(from as int, to as int).take(p@.len() as int) =~= p@);
    true
}

fn has_suffix_at(cs: &Vec<char>, from: usize, to: usize, p: &Vec<char>) -> (r: bool)
    requires
        from <= to <= cs@.len(),
    ensures
        r == has_suffix(cs@.subrange(from as int, to as int), p@),
{
    if p.len() > to - from {
        return false;
    }
    let off = to - p.len();
    let mut k: usize = 0;
    while k < p.len()
        invariant
            from <= to <= cs@.len(),
            p@.len() <= to - from,
            off == to - p@.len(),
            k <= p@.len(),
            forall|j: int| 0 <= j < k ==> cs@[off + j] == p@[j],
        decreases p.len() - k,
    {
        if cs[off + k] != p[k] {
            assert(cs@.subrange(from as int, to as int).skip((to - from - p@.len()) as int)[k as int] != p@[k as int]);
            return false;
        }
        k += 1;
    }
    assert(cs@.subrange(from as int, to as int).skip((to - from - p@.len()) as int) =~= p@);
    true
}

/// `s.trim_start_matches(prefix).trim_end_matches(suffix)`.
pub fn trim_both_matches(s: &str, prefix: &str, suffix: &str) -> (r: String)
    requires
        prefix@.len() > 0,
        suffix@.len() > 0,
    ensures
        r@ == trim_end_matches(trim_start_matches(s@, prefix@), suffix@),
{
    let cs = chars_of(s);
    let p = chars_of(prefix);
    let q = chars_of(suffix);
    let mut from: usize = 0;
    assert(cs@.subrange(0, cs@.len() as int) =~= s@);
    while has_prefix_at(&cs, from, cs.len(), &p)
        invariant
            cs@ == s@,
            p@ == prefix@,
            p@.len() > 0,
            from <= cs@.len(),
            trim_start_matches(s@, prefix@) == trim_start_matches(cs@.subrange(from as int, cs@.len() as int), prefix@),
        decreases cs.len() - from,
    {
        assert(cs@.subrange(from as int, cs@.len() as int).skip(p@.len() as int)
            =~= cs@.subrange(from + p@.len(), cs@.len() as int));
        from = from + p.len();
    }
    let ghost mid = cs@.subrange(from as int, cs@.len() as int);
    assert(trim_start_matches(s@, prefix@) == mid);
    let mut to: usize = cs.len();
    while has_suffix_at(&cs, from, to, &q)
        invariant
            cs@ == s@,
            q@ == suffix@,
            q@.len() > 0,
            from <= to <= cs@.len(),
            mid == cs@.subrange(from as int, cs@.len() as int),
            trim_end_matches(mid, suffix@) == trim_end_matches(cs@.subrange(from as int, to as int), suffix@),
        decreases to,
    {
        assert(cs@.subrange(from as int, to as int).take((to - from - q@.len()) as int)
            =~= cs@.subrange(from as int, (to - q@.len()) as int));
        to = to - q.len();
    }
    let kept = sub_chars(&cs, from, to);
    string_of(&kept)
}

// ── Archive entries ─────────────────────────────────────────────────────────

/// The number of slide `ppt/slides/slide<N>.xml`.
pub open spec fn slide_number(name: Seq<char>) -> Option<nat> {
    let pre = "ppt/slides/slide"@;
    let suf = ".xml"@;
    if has_prefix(name, pre) && has_suffix(name.skip(pre.len() as int), suf) {
        let rest = name.skip(pre.len() as int);
        spec_parse_usize(rest.take(rest.len() - suf.len()))
    } else {
        None
    }
}

/// The largest slide number among the entry names (0 when there is none).
pub open spec fn max_slide(names: Seq<Seq<char>>) -> nat
    decreases names.len(),
{
    if names.len() == 0 {
        0
    } else {
        let m = max_slide(names.drop_last());
        match slide_number(names.last()) {
            Some(n) => if n > m { n } else { m },
            None => m,
        }
    }
}

fn slide_number_of(name: &str) -> (r: Option<usize>)
    ensures
        r matches Some(n) ==> slide_number(name@) == Some(n as nat),
        r is None ==> slide_number(name@) is None,
{
    proof {
        reveal_strlit("ppt/slides/slide");
        reveal_strlit(".xml");
    }
    if !starts_with(name, "ppt/slides/slide") {
        return None;
    }
    let cs = chars_of(name);
    let rest = sub_chars(&cs, 16, cs.len());
    let rest_s = string_of(&rest);
    assert(rest_s@ == name@.skip(16));
    if !ends_with(rest_s.as_str(), ".xml") {
        return None;
    }
    let num = sub_chars(&rest, 0, rest.len() - 4);
    let num_s = string_of(&num);
    assert(num_s@ =~= rest@.take(rest@.len() - 4));
    parse_usize(num_s.as_str())
}

/// How many slides the archive holds: the highest `N` among the entries
/// `ppt/slides/slide<N>.xml`.
pub fn slide_count(names: &Vec<String>) -> (r: usize)
    ensures
        r == max_slide(views(names@)),
{
    let mut max: usize = 0;
    let mut i: usize = 0;
    while i < names.len()
        invariant
            i <= names@.len(),
            max == max_slide(views(names@).take(i as int)),
        decreases names.len() - i,
    {
        assert(views(names@).take(i + 1).drop_last() =~= views(names@).take(i as int));
        assert(views(names@).take(i + 1).last() == names@[i as int]@);
        match slide_number_of(names[i].as_str()) {
            Some(n) => {
                if n > max {
                    max = n;
                }
            },
            None => {},
        }
        i += 1;
    }
    assert(views(names@).take(names@.len() as int) =~= views(names@));
    max
}

/// The names of the media entries (`ppt/media/...`), in archive order.
pub open spec fn media_of(names: Seq<Seq<char>>) -> Seq<Seq<char>>
    decreases names.len(),
{
    if names.len() == 0 {
        Seq::empty()
    } else if has_prefix(names.last(), "ppt/media/"@) {
        media_of(names.drop_last()).push(names.last())
    } else {
        media_of(names.drop_last())
    }
}

pub fn list_media(names: &Vec<String>) -> (r: Vec<String>)
    ensures
        views(r@) == media_of(views(names@)),
{
    let mut out: Vec<String> = Vec::new();
    assert(views(out@) =~= Seq::empty());
    let mut i: usize = 0;
    while i < names.len()
        invariant
            i <= names@.len(),
            views(out@) == media_of(views(names@).take(i as int)),
        decreases names.len() - i,
    {
        assert(views(names@).take(i + 1).drop_last() =~= views(names@).take(i as int));
        assert(views(names@).take(i + 1).last() == names@[i as int]@);
        if starts_with(names[i].as_str(), "ppt/media/") {
            let ghost before = out@;
            out.push(owned(names[i].as_str()));
            assert(views(out@) =~= views(before).push(names@[i as int]@));
        }
        i += 1;
    }
    assert(views(names@).take(names@.len() as int) =~= views(names@));
    out
}

/// `dir.join(name)` on a Unix path: `name` after `dir` and a separator
/// (none added when `dir` is empty or already ends with `/`; `name`
/// replaces `dir` when it is absolute).
pub open spec fn spec_join_path(dir: Seq<char>, name: Seq<char>) -> Seq<char> {
    if has_prefix(name, "/"@) {
        name
    } else if dir.len() == 0 || has_suffix(dir, "/"@) {
        dir + name
    } else {
        dir + "/"@ + name
    }
}

pub fn join_path(dir: &str, name: &str) -> (r: String)
    ensures
        r@ == spec_join_path(dir@, name@),
{
    if starts_with(name, "/") {
        return owned(name);
    }
    let mut out = owned(dir);
    if !(dir.is_empty() || ends_with(dir, "/")) {
        push_str(&mut out, "/");
    }
    push_str(&mut out, name);
    out
}

/// The assets a dry run reports: each media entry with the path under
/// `assets_dir` it would be written to.
pub fn planned_assets(media: &Vec<String>, assets_dir: &str) -> (r: Vec<ExtractedAsset>)
    ensures
        r@.len() == media@.len(),
        forall|i: int| 0 <= i < media@.len() ==> #[trigger] r@[i].original_name@ == media@[i]@
            && r@[i].written_to@ == spec_join_path(assets_dir@, spec_file_basename(media@[i]@)),
{
    let mut out: Vec<ExtractedAsset> = Vec::new();
    let mut i: usize = 0;
    while i < media.len()
        invariant
            i <= media@.len(),
            out@.len() == i,
            forall|k: int| 0 <= k < i ==> #[trigger] out@[k].original_name@ == media@[k]@
                && out@[k].written_to@ == spec_join_path(assets_dir@, spec_file_basename(media@[k]@)),
        decreases media.len() - i,
    {
        let base = file_basename(media[i].as_str());
        let dest = join_path(assets_dir, base.as_str());
        out.push(ExtractedAsset { original_name: owned(media[i].as_str()), written_to: dest });
        i += 1;
    }
    out
}

// ── Slide layouts, in layout order ─────────────────────────────────────────

/// The number of a layout entry `ppt/slideLayouts/slideLayout<N>.xml`.
pub open spec fn layout_number(name: Seq<char>) -> Option<nat> {
    let pre = "ppt/slideLayouts/slideLayout"@;
    if has_prefix(name, pre) && has_suffix(name, ".xml"@) {
        spec_parse_usize(trim_end_matches(trim_start_matches(name, pre), ".xml"@))
    } else {
        None
    }
}

/// The layout entries with their numbers, in archive order.
pub open spec fn layout_candidates(names: Seq<Seq<char>>) -> Seq<(nat, Seq<char>)>
    decreases names.len(),
{
    if names.len() == 0 {
        Seq::empty()
    } else {
        match layout_number(names.last()) {
            Some(n) => layout_candidates(names.drop_last()).push((n, names.last())),
            None => layout_candidates(names.drop_last()),
        }
    }
}

/// `x` placed after every element whose key is not larger than its own.
pub open spec fn insert_by_key(s: Seq<(nat, Seq<char>)>, x: (nat, Seq<char>)) -> Seq<(nat, Seq<char>)>
    decreases s.len(),
{
    if s.len() == 0 {
        seq![x]
    } else if s.last().0 <= x.0 {
        s.push(x)
    } else {
        insert_by_key(s.drop_last(), x).push(s.last())
    }
}

/// Stable sort by key (`sort_by_key`): equal keys keep their order.
pub open spec fn sort_by_key(s: Seq<(nat, Seq<char>)>) -> Seq<(nat, Seq<char>)>
    decreases s.len(),
{
    if s.len() == 0 {
        Seq::empty()
    } else {
        insert_by_key(sort_by_key(s.drop_last()), s.last())
    }
}

/// The layout entry names to read, ordered by layout number.
pub open spec fn sorted_layouts(names: Seq<Seq<char>>) -> Seq<Seq<char>> {
    sort_by_key(layout_candidates(names)).map_values(|e: (nat, Seq<char>)| e.1)
}

pub proof fn lemma_insert_at(s: Seq<(nat, Seq<char>)>, x: (nat, Seq<char>), p: int)
    requires
        0 <= p <= s.len(),
        forall|j: int| p <= j < s.len() ==> s[j].0 > x.0,
        p == 0 || s[p - 1].0 <= x.0,
    ensures
        insert_by_key(s, x) == s.insert(p, x),
    decreases s.len(),
{
    if s.len() == 0 {
        assert(s.insert(p, x) =~= seq![x]);
    } else if s.last().0 <= x.0 {
        assert(p == s.len());
        assert(s.insert(p, x) =~= s.push(x));
    } else {
        lemma_insert_at(s.drop_last(), x, p);
        assert(s.drop_last().insert(p, x).push(s.last()) =~= s.insert(p, x));
    }
}

/// Entries in ascending order of key.
pub open spec fn key_sorted(s: Seq<(nat, Seq<char>)>) -> bool {
    forall|i: int, j: int| 0 <= i < j < s.len() ==> (#[trigger] s[i]).0 <= (#[trigger] s[j]).0
}

/// The entries of `s` whose key is `k`, in their order.
pub open spec fn with_key(s: Seq<(nat, Seq<char>)>, k: nat) -> Seq<(nat, Seq<char>)> {
    s.filter(has_key(k))
}

/// Whether an entry's key is `k`.
pub open spec fn has_key(k: nat) -> spec_fn((nat, Seq<char>)) -> bool {
    |e: (nat, Seq<char>)| e.0 == k
}

/// No key of `s` exceeds `b`.
pub open spec fn keys_at_most(s: Seq<(nat, Seq<char>)>, b: nat) -> bool {
    forall|i: int| 0 <= i < s.len() ==> (#[trigger] s[i]).0 <= b
}

pub proof fn lemma_insert_by_key_bound(s: Seq<(nat, Seq<char>)>, x: (nat, Seq<char>), b: nat)
    requires
        keys_at_most(s, b),
        x.0 <= b,
    ensures
        keys_at_most(insert_by_key(s, x), b),
    decreases s.len(),
{
    if s.len() > 0 && s.last().0 > x.0 {
        lemma_insert_by_key_bound(s.drop_last(), x, b);
    }
}

pub proof fn lemma_insert_by_key(s: Seq<(nat, Seq<char>)>, x: (nat, Seq<char>), k: nat)
    ensures
        key_sorted(s) ==> key_sorted(insert_by_key(s, x)),
        with_key(insert_by_key(s, x), k) == if x.0 == k {
            with_key(s, k).push(x)
        } else {
            with_key(s, k)
        },
        insert_by_key(s, x).len() == s.len() + 1,
    decreases s.len(),
{
    let f = has_key(k);
    reveal(Seq::filter);
    if s.len() == 0 {
        reveal_with_fuel(Seq::filter, 2);
        assert(seq![x].drop_last() =~= s);
    } else if s.last().0 <= x.0 {
        assert(s.push(x).drop_last() =~= s);
        assert(s.push(x).filter(f) == if f(x) { s.filter(f).push(x) } else { s.filter(f) });
    } else {
        let d = s.drop_last();
        lemma_insert_by_key(d, x, k);
        let inner = insert_by_key(d, x);
        assert(inner.push(s.last()).drop_last() =~= inner);
        assert(inner.push(s.last()).filter(f) == if f(s.last()) {
            inner.filter(f).push(s.last())
        } else {
            inner.filter(f)
        });
        assert(s.filter(f) == if f(s.last()) { d.filter(f).push(s.last()) } else { d.filter(f) });
        assert(key_sorted(s) ==> key_sorted(insert_by_key(s, x))) by {
            if key_sorted(s) {
                assert(keys_at_most(d, s.last().0));
                lemma_insert_by_key_bound(d, x, s.last().0);
            }
        }
    }
}

/// Sorting by key leaves the entries in ascending order of key, and the
/// entries of each key in their original order.
pub proof fn lemma_sort_by_key(s: Seq<(nat, Seq<char>)>, k: nat)
    ensures
        key_sorted(sort_by_key(s)),
        with_key(sort_by_key(s), k) == with_key(s, k),
    decreases s.len(),
{
    if s.len() > 0 {
        lemma_sort_by_key(s.drop_last(), k);
        lemma_insert_by_key(sort_by_key(s.drop_last()), s.last(), k);
        reveal(Seq::filter);
        assert(s.filter(has_key(k)) == if has_key(k)(s.last()) {
            s.drop_last().filter(has_key(k)).push(s.last())
        } else {
            s.drop_last().filter(has_key(k))
        });
    }
}

/// The layouts are read in ascending order of layout number, and layouts
/// that share a number keep their archive order.
pub proof fn law_layouts_in_order(names: Seq<Seq<char>>, k: nat)
    ensures
        key_sorted(sort_by_key(layout_candidates(names))),
        with_key(sort_by_key(layout_candidates(names)), k) == with_key(layout_candidates(names), k),
{
    lemma_sort_by_key(layout_candidates(names), k);
}

pub open spec fn entry_views(v: Seq<(usize, String)>) -> Seq<(nat, Seq<char>)> {
    v.map_values(|e: (usize, String)| (e.0 as nat, e.1@))
}

fn layout_number_of(name: &str) -> (r: Option<usize>)
    ensures
        r matches Some(n) ==> layout_number(name@) == Some(n as nat),
        r is None ==> layout_number(name@) is None,
{
    proof {
        reveal_strlit("ppt/slideLayouts/slideLayout");
        reveal_strlit(".xml");
    }
    if starts_with(name, "ppt/slideLayouts/slideLayout") && ends_with(name, ".xml") {
        let num = trim_both_matches(name, "ppt/slideLayouts/slideLayout", ".xml");
        parse_usize(num.as_str())
    } else {
        None
    }
}

/// The slide-layout entries (`ppt/slideLayouts/slideLayout<N>.xml`) ordered
/// by `N`; entries with the same number keep their archive order.
pub fn layout_entries(names: &Vec<String>) -> (r: Vec<String>)
    ensures
        views(r@) == sorted_layouts(views(names@)),
{
    let mut sorted: Vec<(usize, String)> = Vec::new();
    let mut i: usize = 0;
    assert(entry_views(sorted@) =~= Seq::empty());
    while i < names.len()
        invariant
            i <= names@.len(),
            entry_views(sorted@) == sort_by_key(layout_candidates(views(names@).take(i as int))),
        decreases names.len() - i,
    {
        assert(views(names@).take(i + 1).drop_last() =~= views(names@).take(i as int));
        assert(views(names@).take(i + 1).last() == names@[i as int]@);
        match layout_number_of(names[i].as_str()) {
            Some(n) => {
                let ghost before = entry_views(sorted@);
                let ghost cands = layout_candidates(views(names@).take(i as int));
                assert(cands.push((n as nat, names@[i as int]@)).drop_last() =~= cands);
                let mut p = sorted.len();
                while p > 0 && sorted[p - 1].0 > n
                    invariant
                        p <= sorted@.len(),
                        before == entry_views(sorted@),
                        forall|j: int| p <= j < sorted@.len() ==> sorted@[j].0 > n,
                    decreases p,
                {
                    p -= 1;
                }
                proof {
                    lemma_insert_at(before, (n as nat, names@[i as int]@), p as int);
                }
                sorted.insert(p, (n, owned(names[i].as_str())));
                assert(entry_views(sorted@) =~= before.insert(p as int, (n as nat, names@[i as int]@)));
            },
            None => {},
        }
        i += 1;
    }
    assert(views(names@).take(names@.len() as int) =~= views(names@));
    let mut out: Vec<String> = Vec::new();
    let mut k: usize = 0;
    while k < sorted.len()
        invariant
            k <= sorted@.len(),
            out@.len() == k,
            forall|j: int| 0 <= j < k ==> #[trigger] out@[j]@ == sorted@[j].1@,
        decreases sorted.len() - k,
    {
        out.push(owned(sorted[k].1.as_str()));
        k += 1;
    }
    assert(views(out@) =~= sorted_layouts(views(names@)));
    out
}

/// The label shown for a layout: its name, else the entry name.
pub fn layout_label(xml: &str, entry: &str) -> (r: String)
    requires
        vstd::string::StringSliceAdditionalSpecFns::spec_bytes(xml).len() + 1 <= usize::MAX,
    ensures
        r@ == match crate::pptx::slides::layout_name_of(crate::xml::document_events(xml, true)) {
            Some(n) => n,
            None => entry@,
        },
{
    match crate::pptx::slides::extract_layout_name(xml) {
        Some(n) => n,
        None => owned(entry),
    }
}

} // verus!
