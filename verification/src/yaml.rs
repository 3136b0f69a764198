use vstd::prelude::*;

verus! {

/// A YAML document as configs are merged: numbers are held by their text.
pub enum Yaml {
    Null,
    Bool(bool),
    Number(String),
    Str(String),
    Sequence(Vec<Yaml>),
    Mapping(Vec<(Yaml, Yaml)>),
    Tagged(String, Box<Yaml>),
}

/// The mathematical value of a YAML document.
pub enum YamlV {
    Null,
    Bool(bool),
    Number(Seq<char>),
    Str(Seq<char>),
    Sequence(Seq<YamlV>),
    Mapping(Seq<(YamlV, YamlV)>),
    Tagged(Seq<char>, Box<YamlV>),
}

pub open spec fn yv(y: Yaml) -> YamlV
    decreases y,
{
    match y {
        Yaml::Null => YamlV::Null,
        Yaml::Bool(b) => YamlV::Bool(b),
        Yaml::Number(n) => YamlV::Number(n@),
        Yaml::Str(s) => YamlV::Str(s@),
        Yaml::Sequence(v) => YamlV::Sequence(yv_seq(v@)),
        Yaml::Mapping(m) => YamlV::Mapping(yv_map(m@)),
        Yaml::Tagged(t, b) => YamlV::Tagged(t@, Box::new(yv(*b))),
    }
}

pub open spec fn yv_seq(s: Seq<Yaml>) -> Seq<YamlV>
    decreases s,
{
    if s.len() == 0 {
        Seq::empty()
    } else {
        yv_seq(s.subrange(0, s.len() - 1)).push(yv(s[s.len() - 1]))
    }
}

pub open spec fn yv_map(s: Seq<(Yaml, Yaml)>) -> Seq<(YamlV, YamlV)>
    decreases s,
{
    if s.len() == 0 {
        Seq::empty()
    } else {
        yv_map(s.subrange(0, s.len() - 1)).push((yv(s[s.len() - 1].0), yv(s[s.len() - 1].1)))
    }
}

pub proof fn lemma_yv_seq(s: Seq<Yaml>)
    ensures
        yv_seq(s).len() == s.len(),
        forall|i: int| 0 <= i < s.len() ==> #[trigger] yv_seq(s)[i] == yv(s[i]),
    decreases s.len(),
{
    if s.len() > 0 {
        lemma_yv_seq(s.subrange(0, s.len() - 1));
    }
}

pub proof fn lemma_yv_map(s: Seq<(Yaml, Yaml)>)
    ensures
        yv_map(s).len() == s.len(),
        forall|i: int| 0 <= i < s.len() ==> #[trigger] yv_map(s)[i] == (yv(s[i].0), yv(s[i].1)),
    decreases s.len(),
{
    if s.len() > 0 {
        lemma_yv_map(s.subrange(0, s.len() - 1));
    }
}

// ── Deep merge ──────────────────────────────────────────────────────────────

/// Index of the first entry of a mapping whose key is `k`.
pub open spec fn key_index(m: Seq<(YamlV, YamlV)>, k: YamlV) -> Option<int>
    decreases m.len(),
{
    if m.len() == 0 {
        None
    } else if m[0].0 == k {
        Some(0)
    } else {
        match key_index(m.drop_first(), k) {
            Some(i) => Some(i + 1),
            None => None,
        }
    }
}

/// `over` merged into `base`: two mappings merge key by key (the override
/// wins on every conflict, recursively); any other pair gives `over`.
pub open spec fn merge_v(base: YamlV, over: YamlV) -> YamlV
    decreases over,
{
    match over {
        YamlV::Mapping(om) => match base {
            YamlV::Mapping(bm) => YamlV::Mapping(merge_entries(bm, om)),
            _ => over,
        },
        _ => over,
    }
}

/// The entries of `om` merged in turn into the mapping entries `bm`.
pub open spec fn merge_entries(bm: Seq<(YamlV, YamlV)>, om: Seq<(YamlV, YamlV)>) -> Seq<(YamlV, YamlV)>
    decreases om,
{
    if om.len() == 0 {
        bm
    } else {
        merge_entry(merge_entries(bm, om.subrange(0, om.len() - 1)), om[om.len() - 1])
    }
}

/// One override entry merged into mapping entries: an existing key keeps its
/// place and takes the merged value; a new key is appended.
pub open spec fn merge_entry(acc: Seq<(YamlV, YamlV)>, kv: (YamlV, YamlV)) -> Seq<(YamlV, YamlV)>
    decreases kv,
{
    match key_index(acc, kv.0) {
        Some(i) => if 0 <= i < acc.len() {
            acc.update(i, (acc[i].0, merge_v(acc[i].1, kv.1)))
        } else {
            acc
        },
        None => acc.push(kv),
    }
}

pub proof fn lemma_key_index(m: Seq<(YamlV, YamlV)>, k: YamlV, i: int)
    requires
        0 <= i <= m.len(),
        forall|j: int| 0 <= j < i ==> m[j].0 != k,
    ensures
        i < m.len() && m[i].0 == k ==> key_index(m, k) == Some(i),
        i == m.len() ==> key_index(m, k) is None,
    decreases i,
{
    if i > 0 {
        lemma_key_index(m.drop_first(), k, i - 1);
    }
}

/// Structural equality of two documents.
pub fn yaml_eq(a: &Yaml, b: &Yaml) -> (r: bool)
    ensures
        r == (yv(*a) == yv(*b)),
    decreases a,
{
    match (a, b) {
        (Yaml::Null, Yaml::Null) => true,
        (Yaml::Bool(x), Yaml::Bool(y)) => *x == *y,
        (Yaml::Number(x), Yaml::Number(y)) => crate::json::str_eq(x.as_str(), y.as_str()),
        (Yaml::Str(x), Yaml::Str(y)) => crate::json::str_eq(x.as_str(), y.as_str()),
        (Yaml::Tagged(t, x), Yaml::Tagged(u, y)) => {
            if !crate::json::str_eq(t.as_str(), u.as_str()) {
                return false;
            }
            yaml_eq(&**x, &**y)
        },
        (Yaml::Sequence(x), Yaml::Sequence(y)) => {
            proof {
                lemma_yv_seq(x@);
                lemma_yv_seq(y@);
            }
            if x.len() != y.len() {
                return false;
            }
            let mut i: usize = 0;
            while i < x.len()
                invariant
                    i <= x@.len(),
                    x@.len() == y@.len(),
                    *a == Yaml::Sequence(*x),
                    *b == Yaml::Sequence(*y),
                    yv_seq(x@).len() == x@.len(),
                    yv_seq(y@).len() == y@.len(),
                    forall|k: int| 0 <= k < x@.len() ==> #[trigger] yv_seq(x@)[k] == yv(x@[k]),
                    forall|k: int| 0 <= k < y@.len() ==> #[trigger] yv_seq(y@)[k] == yv(y@[k]),
                    forall|k: int| 0 <= k < i ==> yv_seq(x@)[k] == yv_seq(y@)[k],
                decreases x.len() - i,
            {
                assert(decreases_to!(*a => x@[i as int]));
                if !yaml_eq(&x[i], &y[i]) {
                    assert(yv_seq(x@)[i as int] != yv_seq(y@)[i as int]);
                    return false;
                }
                i += 1;
            }
            assert(yv_seq(x@) =~= yv_seq(y@));
            true
        },
        (Yaml::Mapping(x), Yaml::Mapping(y)) => {
            proof {
                lemma_yv_map(x@);
                lemma_yv_map(y@);
            }
            if x.len() != y.len() {
                return false;
            }
            let mut i: usize = 0;
            while i < x.len()
                invariant
                    i <= x@.len(),
                    x@.len() == y@.len(),
                    *a == Yaml::Mapping(*x),
                    *b == Yaml::Mapping(*y),
                    yv_map(x@).len() == x@.len(),
                    yv_map(y@).len() == y@.len(),
                    forall|k: int| 0 <= k < x@.len() ==> #[trigger] yv_map(x@)[k] == (yv(x@[k].0), yv(x@[k].1)),
                    forall|k: int| 0 <= k < y@.len() ==> #[trigger] yv_map(y@)[k] == (yv(y@[k].0), yv(y@[k].1)),
                    forall|k: int| 0 <= k < i ==> yv_map(x@)[k] == yv_map(y@)[k],
                decreases x.len() - i,
            {
                assert(decreases_to!(*a => x@[i as int].0));
                assert(decreases_to!(*a => x@[i as int].1));
                let same = yaml_eq(&x[i].0, &y[i].0) && yaml_eq(&x[i].1, &y[i].1);
                if !same {
                    assert(yv_map(x@)[i as int] != yv_map(y@)[i as int]);
                    return false;
                }
                i += 1;
            }
            assert(yv_map(x@) =~= yv_map(y@));
            true
        },
        _ => false,
    }
}

/// Recursively merges two documents; the override wins on conflicts.
///
/// Two mappings merge key by key, in the override's order: a key the base
/// already has keeps its place and takes the merge of both values, a new
/// key is appended. Any other pair of values gives the override.
pub fn deep_merge(base: Yaml, over: Yaml) -> (r: Yaml)
    ensures
        yv(r) == merge_v(yv(base), yv(over)),
    decreases over,
{
    let ghost og = over;
    match over {
        Yaml::Mapping(om) => {
            match base {
                Yaml::Mapping(bm) => {
                    let ghost om0 = om@;
                    let ghost bmv = yv_map(bm@);
                    proof {
                        lemma_yv_map(om0);
                    }
                    proof {
                        assert forall|j: int| 0 <= j < om0.len() implies decreases_to!(og => om0[j].1) by {
                            assert(decreases_to!(og => om));
                            assert(decreases_to!(om => om@));
                            assert(decreases_to!(om@ => om@[j]));
                            assert(decreases_to!(om@[j] => om@[j].1));
                        }
                    }
                    let mut acc = bm;
                    let mut rest = om;
                    let mut done: usize = 0;
                    let n0 = rest.len();
                    assert(om0.len() == n0);
                    assert(om0.subrange(0, 0) =~= Seq::<(Yaml, Yaml)>::empty());
                    assert(yv_map(om0.subrange(0, 0)) =~= Seq::<(YamlV, YamlV)>::empty());
                    assert(om0.skip(0) =~= om0);
                    while rest.len() > 0
                        invariant
                            done <= om0.len(),
                            om0.len() <= usize::MAX,
                            og == over,
                            rest@ == om0.skip(done as int),
                            yv_map(acc@) == merge_entries(bmv, yv_map(om0.subrange(0, done as int))),
                            forall|j: int| 0 <= j < om0.len() ==> decreases_to!(og => om0[j].1),
                        decreases rest.len(),
                    {
                        let ghost before = rest@;
                        let (k, v) = rest.remove(0);
                        assert(rest@ =~= om0.skip(done + 1));
                        assert((k, v) == om0[done as int]);
                        proof {
                            lemma_yv_map(acc@);
                            assert(om0.subrange(0, done + 1).subrange(0, done as int) =~= om0.subrange(0, done as int));
                            lemma_yv_map(om0.subrange(0, done + 1));
                        }
                        let ghost prev = yv_map(acc@);
                        proof {
                            let om_next = yv_map(om0.subrange(0, done + 1));
                            assert(om0.subrange(0, done + 1)[done as int] == om0[done as int]);
                            assert(om_next.len() == done + 1);
                            assert(om_next.subrange(0, om_next.len() - 1) =~= yv_map(om0.subrange(0, done as int)));
                            assert(om_next[om_next.len() - 1] == (yv(k), yv(v)));
                            assert(merge_entries(bmv, om_next) == merge_entry(prev, (yv(k), yv(v))));
                        }
                        let mut i: usize = 0;
                        while i < acc.len() && !yaml_eq(&acc[i].0, &k)
                            invariant
                                i <= acc@.len(),
                                prev == yv_map(acc@),
                                prev.len() == acc@.len(),
                                forall|j: int| 0 <= j < acc@.len() ==> #[trigger] prev[j] == (yv(acc@[j].0), yv(acc@[j].1)),
                                forall|j: int| 0 <= j < i ==> prev[j].0 != yv(k),
                            decreases acc.len() - i,
                        {
                            i += 1;
                        }
                        proof {
                            lemma_key_index(prev, yv(k), i as int);
                        }
                        if i < acc.len() {
                            let (ak, av) = acc.remove(i);
                            assert(decreases_to!(og => v));
                            let m = deep_merge(av, v);
                            acc.insert(i, (ak, m));
                            proof {
                                lemma_yv_map(acc@);
                                assert(yv_map(acc@) =~= prev.update(i as int, (prev[i as int].0, merge_v(prev[i as int].1, yv(v)))));
                            }
                        } else {
                            acc.push((k, v));
                            proof {
                                lemma_yv_map(acc@);
                                assert(yv_map(acc@) =~= prev.push((yv(k), yv(v))));
                            }
                        }
                        assert(done < om0.len());
                        done += 1;
                    }
                    assert(om0.subrange(0, done as int) =~= om0);
                    Yaml::Mapping(acc)
                },
                _ => Yaml::Mapping(om),
            }
        },
        other => other,
    }
}

// ── Laws of the merge ───────────────────────────────────────────────────────

/// The value under key `k` of mapping entries.
pub open spec fn lookup(m: Seq<(YamlV, YamlV)>, k: YamlV) -> Option<YamlV> {
    match key_index(m, k) {
        Some(i) => Some(m[i].1),
        None => None,
    }
}

/// No key occurs twice (as in every parsed YAML mapping).
pub open spec fn distinct_keys(m: Seq<(YamlV, YamlV)>) -> bool {
    forall|i: int, j: int| 0 <= i < j < m.len() ==> m[i].0 != m[j].0
}

pub proof fn lemma_key_index_bounds(m: Seq<(YamlV, YamlV)>, k: YamlV)
    ensures
        key_index(m, k) matches Some(i) ==> 0 <= i < m.len() && m[i].0 == k && forall|j: int|
            0 <= j < i ==> m[j].0 != k,
        key_index(m, k) is None ==> forall|j: int| 0 <= j < m.len() ==> m[j].0 != k,
    decreases m.len(),
{
    if m.len() > 0 {
        lemma_key_index_bounds(m.drop_first(), k);
        if m[0].0 != k {
            assert forall|j: int| 1 <= j < m.len() implies m[j].0 == m.drop_first()[j - 1].0 by {}
        }
    }
}

/// The value merged for one override entry lands under its key; every other
/// key keeps its value; keys stay distinct.
pub proof fn lemma_merge_entry(acc: Seq<(YamlV, YamlV)>, kv: (YamlV, YamlV), k: YamlV)
    requires
        distinct_keys(acc),
    ensures
        distinct_keys(merge_entry(acc, kv)),
        k == kv.0 ==> lookup(merge_entry(acc, kv), k) == Some(
            match lookup(acc, k) {
                Some(b) => merge_v(b, kv.1),
                None => kv.1,
            },
        ),
        k != kv.0 ==> lookup(merge_entry(acc, kv), k) == lookup(acc, k),
{
    lemma_key_index_bounds(acc, kv.0);
    lemma_key_index_bounds(acc, k);
    let r = merge_entry(acc, kv);
    match key_index(acc, kv.0) {
        Some(i) => {
            assert(r == acc.update(i, (acc[i].0, merge_v(acc[i].1, kv.1))));
            assert forall|a: int, b: int| 0 <= a < b < r.len() implies r[a].0 != r[b].0 by {
                assert(r[a].0 == acc[a].0 && r[b].0 == acc[b].0);
            }
            match key_index(acc, k) {
                Some(j) => {
                    lemma_key_index(r, k, j);
                },
                None => {
                    lemma_key_index(r, k, r.len() as int);
                },
            }
        },
        None => {
            assert(r == acc.push(kv));
            assert forall|a: int, b: int| 0 <= a < b < r.len() implies r[a].0 != r[b].0 by {
                if b == acc.len() {
                    assert(r[a].0 == acc[a].0);
                }
            }
            match key_index(acc, k) {
                Some(j) => {
                    lemma_key_index(r, k, j);
                },
                None => {
                    if k == kv.0 {
                        lemma_key_index(r, k, acc.len() as int);
                    } else {
                        lemma_key_index(r, k, r.len() as int);
                    }
                },
            }
        },
    }
}

/// Merging an override mapping into a base mapping, both without repeated
/// keys: every key of the override holds the merge of the base's value (if
/// any) with the override's; every other key keeps the base's value.
pub proof fn lemma_merge_entries(bm: Seq<(YamlV, YamlV)>, om: Seq<(YamlV, YamlV)>, k: YamlV)
    requires
        distinct_keys(bm),
        distinct_keys(om),
    ensures
        distinct_keys(merge_entries(bm, om)),
        lookup(merge_entries(bm, om), k) == match lookup(om, k) {
            Some(v) => Some(
                match lookup(bm, k) {
                    Some(b) => merge_v(b, v),
                    None => v,
                },
            ),
            None => lookup(bm, k),
        },
    decreases om.len(),
{
    if om.len() > 0 {
        let prefix = om.subrange(0, om.len() - 1);
        let last = om[om.len() - 1];
        assert(distinct_keys(prefix));
        lemma_merge_entries(bm, prefix, k);
        lemma_merge_entries(bm, prefix, last.0);
        lemma_merge_entry(merge_entries(bm, prefix), last, k);
        lemma_key_index_bounds(prefix, k);
        lemma_key_index_bounds(om, k);
        lemma_key_index_bounds(prefix, last.0);
        if k == last.0 {
            assert forall|x: int| 0 <= x < om.len() - 1 implies om[x].0 != k by {
                assert(om[x] == prefix[x]);
            }
            lemma_key_index(om, k, om.len() - 1);
        } else {
            match key_index(prefix, k) {
                Some(j) => {
                    assert forall|x: int| 0 <= x < j implies om[x].0 != k by {
                        assert(om[x] == prefix[x]);
                    }
                    assert(om[j] == prefix[j]);
                    lemma_key_index(om, k, j);
                },
                None => {
                    assert forall|x: int| 0 <= x < om.len() implies om[x].0 != k by {
                        if x < om.len() - 1 {
                            assert(om[x] == prefix[x]);
                        }
                    }
                    lemma_key_index(om, k, om.len() as int);
                },
            }
        }
    }
}

/// The deep merge of configs: where the override is not a mapping, or the
/// base is not, the override is the result.
pub proof fn law_override_wins(base: YamlV, over: YamlV)
    requires
        !(over is Mapping) || !(base is Mapping),
    ensures
        merge_v(base, over) == over,
{
}

/// The deep merge of configs: any key of a project config overrides the
/// global value under that key (merging the two where both are mappings),
/// and a key the project config lacks keeps the global value.
pub proof fn law_project_keys_win(
    global: Seq<(YamlV, YamlV)>,
    project: Seq<(YamlV, YamlV)>,
    k: YamlV,
)
    requires
        distinct_keys(global),
        distinct_keys(project),
    ensures
        merge_v(YamlV::Mapping(global), YamlV::Mapping(project)) matches YamlV::Mapping(m)
            && distinct_keys(m) && lookup(m, k) == match lookup(project, k) {
            Some(v) => Some(
                match lookup(global, k) {
                    Some(b) => merge_v(b, v),
                    None => v,
                },
            ),
            None => lookup(global, k),
        },
{
    lemma_merge_entries(global, project, k);
}

/// Merging an empty project mapping leaves the global config unchanged.
pub proof fn law_empty_override(global: Seq<(YamlV, YamlV)>)
    ensures
        merge_v(YamlV::Mapping(global), YamlV::Mapping(Seq::empty())) == YamlV::Mapping(global),
{
}

/// Merging a project config into an empty global config gives the project
/// config (its keys being distinct, as in every parsed mapping).
pub proof fn law_merge_into_empty(project: Seq<(YamlV, YamlV)>)
    requires
        distinct_keys(project),
    ensures
        merge_v(YamlV::Mapping(Seq::empty()), YamlV::Mapping(project)) == YamlV::Mapping(project),
{
    lemma_merge_entries_into_empty(project);
}

proof fn lemma_merge_entries_into_empty(om: Seq<(YamlV, YamlV)>)
    requires
        distinct_keys(om),
    ensures
        merge_entries(Seq::empty(), om) == om,
    decreases om.len(),
{
    if om.len() > 0 {
        let d = om.subrange(0, om.len() - 1);
        assert(distinct_keys(d));
        lemma_merge_entries_into_empty(d);
        lemma_key_index_bounds(d, om[om.len() - 1].0);
        assert(key_index(d, om[om.len() - 1].0) is None) by {
            if key_index(d, om[om.len() - 1].0) is Some {
                let i = key_index(d, om[om.len() - 1].0)->0;
                assert(om[i].0 == om[om.len() - 1].0);
            }
        }
        assert(merge_entries(Seq::empty(), om) == merge_entry(d, om[om.len() - 1]));
        assert(merge_entry(d, om[om.len() - 1]) == d.push(om[om.len() - 1]));
        assert(d.push(om[om.len() - 1]) =~= om);
    } else {
        assert(om =~= Seq::<(YamlV, YamlV)>::empty());
    }
}

/// Every mapping of the document, the document itself and the values under
/// mapping keys at any depth, has distinct keys (as in every parsed YAML
/// document).
pub open spec fn well_keyed(v: YamlV) -> bool
    decreases v,
{
    match v {
        YamlV::Mapping(m) => distinct_keys(m) && forall|i: int|
            0 <= i < m.len() ==> well_keyed(#[trigger] m[i].1),
        _ => true,
    }
}

proof fn lemma_merge_entries_self(m: Seq<(YamlV, YamlV)>, j: int)
    requires
        distinct_keys(m),
        0 <= j <= m.len(),
        forall|i: int| 0 <= i < m.len() ==> merge_v(#[trigger] m[i].1, m[i].1) == m[i].1,
    ensures
        merge_entries(m, m.subrange(0, j)) == m,
    decreases j,
{
    if j == 0 {
        assert(m.subrange(0, 0) =~= Seq::<(YamlV, YamlV)>::empty());
    } else {
        let om = m.subrange(0, j);
        lemma_merge_entries_self(m, j - 1);
        assert(om.subrange(0, j - 1) =~= m.subrange(0, j - 1));
        assert(om[j - 1] == m[j - 1]);
        assert(merge_entries(m, om) == merge_entry(merge_entries(m, om.subrange(0, j - 1)), om[j - 1]));
        assert(merge_entries(m, om) == merge_entry(m, m[j - 1]));
        assert forall|k: int| 0 <= k < j - 1 implies #[trigger] m[k].0 != m[j - 1].0 by {}
        lemma_key_index(m, m[j - 1].0, j - 1);
        assert(key_index(m, m[j - 1].0) == Some(j - 1));
        assert(merge_v(m[j - 1].1, m[j - 1].1) == m[j - 1].1);
        assert(merge_entry(m, m[j - 1]) == m.update(j - 1, (m[j - 1].0, merge_v(m[j - 1].1, m[j - 1].1))));
        assert(m.update(j - 1, (m[j - 1].0, merge_v(m[j - 1].1, m[j - 1].1))) =~= m);
    }
}

/// Merging a config with itself gives it back (its mappings having distinct
/// keys at every depth, as in every parsed document).
pub proof fn law_merge_idempotent(v: YamlV)
    requires
        well_keyed(v),
    ensures
        merge_v(v, v) == v,
    decreases v,
{
    match v {
        YamlV::Mapping(m) => {
            assert forall|i: int| 0 <= i < m.len() implies merge_v(#[trigger] m[i].1, m[i].1) == m[i].1 by {
                assert(decreases_to!(v => m));
                assert(decreases_to!(m => m[i]));
                assert(decreases_to!(m[i] => m[i].1));
                law_merge_idempotent(m[i].1);
            }
            lemma_merge_entries_self(m, m.len() as int);
            assert(m.subrange(0, m.len() as int) =~= m);
        },
        _ => {},
    }
}

} // verus!
