//! Job labels and the agent's label-based admission filter.
//!
//! `Labels` is a mapping from string keys to string values with unique keys.
//! `FilterLabels` is the agent's capability advertisement, parsed once from a
//! comma-separated `key=value` configuration string; `supports` decides
//! whether a job's labels are acceptable to this agent.
use vstd::prelude::*;

use crate::text::{find_char, first_index_of, split_on, split_str, starts_with, str_eq,
    str_starts_with};

verus! {

/// A mapping from string keys to string values, keys unique.
pub struct Labels {
    pairs: Vec<(String, String)>,
}

/// Keys of distinct entries differ.
spec fn keys_unique(ps: Seq<(String, String)>) -> bool {
    forall|i: int, j: int| 0 <= i < j < ps.len() ==> ps[i].0@ != ps[j].0@
}

/// The mapping described by an association list, later entries overriding
/// earlier ones.
spec fn assoc_map(ps: Seq<(String, String)>) -> Map<Seq<char>, Seq<char>>
    decreases ps.len(),
{
    if ps.len() == 0 {
        Map::empty()
    } else {
        assoc_map(ps.drop_last()).insert(ps.last().0@, ps.last().1@)
    }
}

proof fn lemma_assoc_pair(ps: Seq<(String, String)>, i: int)
    requires
        keys_unique(ps),
        0 <= i < ps.len(),
    ensures
        assoc_map(ps).contains_key(ps[i].0@),
        assoc_map(ps)[ps[i].0@] == ps[i].1@,
    decreases ps.len(),
{
    if i < ps.len() - 1 {
        lemma_assoc_pair(ps.drop_last(), i);
    }
}

proof fn lemma_assoc_contains(ps: Seq<(String, String)>, k: Seq<char>)
    ensures
        assoc_map(ps).contains_key(k) <==> exists|i: int| 0 <= i < ps.len() && ps[i].0@ == k,
    decreases ps.len(),
{
    if ps.len() > 0 {
        lemma_assoc_contains(ps.drop_last(), k);
        if ps.last().0@ == k {
            assert(ps[ps.len() - 1].0@ == k);
        } else if assoc_map(ps).contains_key(k) {
            let i = choose|i: int| 0 <= i < ps.len() - 1 && ps.drop_last()[i].0@ == k;
            assert(ps[i].0@ == k);
        } else {
            assert forall|i: int| 0 <= i < ps.len() implies ps[i].0@ != k by {
                if i < ps.len() - 1 {
                    assert(ps.drop_last()[i].0@ == ps[i].0@);
                }
            }
        }
    }
}

proof fn lemma_assoc_update(ps: Seq<(String, String)>, i: int, p: (String, String))
    requires
        keys_unique(ps),
        0 <= i < ps.len(),
        ps[i].0@ == p.0@,
    ensures
        assoc_map(ps.update(i, p)) == assoc_map(ps).insert(p.0@, p.1@),
    decreases ps.len(),
{
    if i == ps.len() - 1 {
        assert(ps.update(i, p).drop_last() =~= ps.drop_last());
        assert(assoc_map(ps.update(i, p)) =~= assoc_map(ps).insert(p.0@, p.1@));
    } else {
        assert(ps.update(i, p).drop_last() =~= ps.drop_last().update(i, p));
        lemma_assoc_update(ps.drop_last(), i, p);
        assert(ps.last().0@ != p.0@);
        assert(assoc_map(ps.update(i, p)) =~= assoc_map(ps).insert(p.0@, p.1@));
    }
}

impl Labels {
    #[verifier::type_invariant]
    spec fn wf(self) -> bool {
        keys_unique(self.pairs@)
    }

    pub fn new() -> (r: Labels)
        ensures
            r@ == Map::<Seq<char>, Seq<char>>::empty(),
    {
        Labels { pairs: Vec::new() }
    }

    /// Add or replace the entry for `key`.
    pub fn insert(&mut self, key: String, value: String)
        ensures
            final(self)@ == old(self)@.insert(key@, value@),
    {
        proof {
            use_type_invariant(&*self);
        }
        let ghost old_pairs = self.pairs@;
        let mut pairs: Vec<(String, String)> = Vec::new();
        std::mem::swap(&mut pairs, &mut self.pairs);
        let n = pairs.len();
        let mut i: usize = 0;
        while i < n
            invariant
                n == pairs.len(),
                i <= n,
                pairs@ == old_pairs,
                keys_unique(old_pairs),
                old(self)@ == assoc_map(old_pairs),
                forall|j: int| 0 <= j < i ==> pairs@[j].0@ != key@,
            decreases n - i,
        {
            if str_eq(pairs[i].0.as_str(), key.as_str()) {
                proof {
                    lemma_assoc_update(old_pairs, i as int, (key, value));
                    assert(keys_unique(old_pairs.update(i as int, (key, value)))) by {
                        assert forall|a: int, b: int|
                            0 <= a < b < old_pairs.len() implies old_pairs.update(
                            i as int,
                            (key, value),
                        )[a].0@ != old_pairs.update(i as int, (key, value))[b].0@ by {
                            assert(old_pairs[a].0@ != old_pairs[b].0@);
                        }
                    }
                }
                pairs.set(i, (key, value));
                self.pairs = pairs;
                return ;
            }
            i = i + 1;
        }
        pairs.push((key, value));
        proof {
            assert(pairs@.drop_last() =~= old_pairs);
        }
        self.pairs = pairs;
    }

    /// Look the value for `key` up.
    pub fn get(&self, key: &str) -> (r: Option<&String>)
        ensures
            r matches Some(v) ==> self@.contains_key(key@) && v@ == self@[key@],
            r is None ==> !self@.contains_key(key@),
    {
        proof {
            use_type_invariant(&*self);
        }
        let n = self.pairs.len();
        let mut i: usize = 0;
        while i < n
            invariant
                n == self.pairs.len(),
                i <= n,
                keys_unique(self.pairs@),
                self@ == assoc_map(self.pairs@),
                forall|j: int| 0 <= j < i ==> self.pairs@[j].0@ != key@,
            decreases n - i,
        {
            if str_eq(self.pairs[i].0.as_str(), key) {
                proof {
                    lemma_assoc_pair(self.pairs@, i as int);
                }
                return Some(&self.pairs[i].1);
            }
            i = i + 1;
        }
        proof {
            lemma_assoc_contains(self.pairs@, key@);
        }
        None
    }
}

impl View for Labels {
    type V = Map<Seq<char>, Seq<char>>;

    closed spec fn view(&self) -> Map<Seq<char>, Seq<char>> {
        assoc_map(self.pairs@)
    }
}

/// Keys under the CI system's internal namespace tag orchestration metadata,
/// never capability requirements.
pub open spec fn internal_label_key(k: Seq<char>) -> bool {
    starts_with(k, "woodpecker-ci.org"@)
}

/// One job label is acceptable under the filter mapping `f`: an empty value
/// or an internal key is skipped, any other key must be configured with the
/// wildcard `*` or exactly the job's value.
pub open spec fn label_pair_ok(f: Map<Seq<char>, Seq<char>>, k: Seq<char>, v: Seq<char>) -> bool {
    ||| v.len() == 0
    ||| internal_label_key(k)
    ||| (f.contains_key(k) && (f[k] == "*"@ || f[k] == v))
}

/// Every label of the job is acceptable under the filter mapping `f`.
pub open spec fn spec_supports(f: Map<Seq<char>, Seq<char>>, m: Map<Seq<char>, Seq<char>>) -> bool {
    forall|k: Seq<char>| #[trigger] m.contains_key(k) ==> label_pair_ok(f, k, m[k])
}

/// Piece `e` of a filter configuration string: the key before the first `=`.
pub open spec fn entry_key(e: Seq<char>) -> Seq<char> {
    e.subrange(0, first_index_of(e, '='))
}

/// Piece `e` of a filter configuration string: the value between the first
/// and second `=`, or everything after the first when there is no second.
pub open spec fn entry_value(e: Seq<char>) -> Seq<char> {
    let rest = e.subrange(first_index_of(e, '=') + 1, e.len() as int);
    if first_index_of(rest, '=') >= 0 {
        rest.subrange(0, first_index_of(rest, '='))
    } else {
        rest
    }
}

pub open spec fn entries_map(es: Seq<Seq<char>>) -> Map<Seq<char>, Seq<char>>
    decreases es.len(),
{
    if es.len() == 0 {
        Map::empty()
    } else {
        entries_map(es.drop_last()).insert(entry_key(es.last()), entry_value(es.last()))
    }
}

/// The mapping a well-formed filter configuration string describes.
pub open spec fn filter_map_of(s: Seq<char>) -> Map<Seq<char>, Seq<char>> {
    entries_map(split_on(s, ','))
}

/// Every comma-separated piece of the filter configuration string holds a
/// `=`; a string without this is a fatal configuration error.
pub open spec fn filter_string_wf(s: Seq<char>) -> bool {
    forall|i: int| 0 <= i < split_on(s, ',').len()
        ==> #[trigger] first_index_of(split_on(s, ',')[i], '=') >= 0
}

/// The agent's capability advertisement: a mapping from label key to the
/// accepted value or the wildcard `*`.
pub struct FilterLabels(Labels);

impl View for FilterLabels {
    type V = Map<Seq<char>, Seq<char>>;

    closed spec fn view(&self) -> Map<Seq<char>, Seq<char>> {
        self.0@
    }
}

impl FilterLabels {
    pub fn from_string(filter_labels: &str) -> (r: FilterLabels)
        requires
            filter_string_wf(filter_labels@),
        ensures
            r@ == filter_map_of(filter_labels@),
    {
        let ghost entries_spec = split_on(filter_labels@, ',');
        let entries = split_str(filter_labels, ',');
        let mut labels = Labels::new();
        let n = entries.len();
        let mut idx: usize = 0;
        while idx < n
            invariant
                n == entries.len(),
                idx <= n,
                entries.deep_view() == entries_spec,
                filter_string_wf(filter_labels@),
                entries_spec == split_on(filter_labels@, ','),
                labels@ == entries_map(entries_spec.subrange(0, idx as int)),
            decreases n - idx,
        {
            let e = entries[idx].as_str();
            proof {
                assert(e@ == entries_spec[idx as int]);
                crate::text::lemma_first_index_of(e@, '=');
            }
            let eq_pos = find_char(e, '=').unwrap();
            let e_len = e.unicode_len();
            let key = e.substring_char(0, eq_pos).to_owned();
            let rest = e.substring_char(eq_pos + 1, e_len);
            proof {
                crate::text::lemma_first_index_of(rest@, '=');
            }
            let value = match find_char(rest, '=') {
                Some(j) => rest.substring_char(0, j).to_owned(),
                Option::None => rest.to_owned(),
            };
            proof {
                assert(key@ == entry_key(entries_spec[idx as int]));
                assert(value@ == entry_value(entries_spec[idx as int]));
            }
            labels.insert(key, value);
            proof {
                assert(entries_spec.subrange(0, idx + 1).drop_last() =~= entries_spec.subrange(
                    0,
                    idx as int,
                ));
                assert(entries_spec.subrange(0, idx + 1).last() == entries_spec[idx as int]);
            }
            idx = idx + 1;
        }
        proof {
            assert(entries_spec.subrange(0, n as int) =~= entries_spec);
        }
        FilterLabels(labels)
    }

    /// Whether `s` is a well-formed filter configuration string, so that
    /// `from_string` accepts it.
    pub fn string_well_formed(s: &str) -> (r: bool)
        ensures
            r == filter_string_wf(s@),
    {
        let entries = split_str(s, ',');
        let ghost entries_spec = split_on(s@, ',');
        let n = entries.len();
        let mut idx: usize = 0;
        while idx < n
            invariant
                n == entries.len(),
                idx <= n,
                entries.deep_view() == entries_spec,
                entries_spec == split_on(s@, ','),
                forall|j: int| 0 <= j < idx ==> #[trigger] first_index_of(entries_spec[j], '=')
                    >= 0,
            decreases n - idx,
        {
            proof {
                assert(entries[idx as int]@ == entries_spec[idx as int]);
            }
            if find_char(entries[idx].as_str(), '=').is_none() {
                return false;
            }
            idx = idx + 1;
        }
        true
    }

    /// Parse a filter configuration string, rejecting a malformed one (an
    /// entry without `=`) instead of accepting it.
    pub fn parse(s: &str) -> (r: Option<FilterLabels>)
        ensures
            r matches Some(f) ==> filter_string_wf(s@) && f@ == filter_map_of(s@),
            r is None ==> !filter_string_wf(s@),
    {
        if FilterLabels::string_well_formed(s) {
            Some(FilterLabels::from_string(s))
        } else {
            Option::None
        }
    }

    /// Whether a job with the given labels is acceptable to this agent.
    pub fn supports(&self, workflow_labels: &Labels) -> (r: bool)
        ensures
            r == spec_supports(self@, workflow_labels@),
    {
        proof {
            use_type_invariant(workflow_labels);
        }
        let ghost ps = workflow_labels.pairs@;
        let ghost m = workflow_labels@;
        let n = workflow_labels.pairs.len();
        let mut i: usize = 0;
        while i < n
            invariant
                n == workflow_labels.pairs.len(),
                i <= n,
                ps == workflow_labels.pairs@,
                m == assoc_map(ps),
                m == workflow_labels@,
                keys_unique(ps),
                self@ == self.0@,
                forall|j: int| 0 <= j < i ==> label_pair_ok(self@, ps[j].0@, ps[j].1@),
            decreases n - i,
        {
            let k = &workflow_labels.pairs[i].0;
            let v = &workflow_labels.pairs[i].1;
            if !v.as_str().is_empty() && !str_starts_with(k.as_str(), "woodpecker-ci.org") {
                let ok = match self.0.get(k.as_str()) {
                    Some(filter_value) => {
                        str_eq(filter_value.as_str(), "*") || str_eq(
                            filter_value.as_str(),
                            v.as_str(),
                        )
                    },
                    Option::None => false,
                };
                if !ok {
                    proof {
                        lemma_assoc_pair(ps, i as int);
                        assert(m.contains_key(ps[i as int].0@));
                        assert(!label_pair_ok(self@, ps[i as int].0@, m[ps[i as int].0@]));
                    }
                    return false;
                }
            }
            i = i + 1;
        }
        proof {
            assert forall|k: Seq<char>| #[trigger] m.contains_key(k) implies label_pair_ok(
                self@,
                k,
                m[k],
            ) by {
                lemma_assoc_contains(ps, k);
                let j = choose|j: int| 0 <= j < ps.len() && ps[j].0@ == k;
                lemma_assoc_pair(ps, j);
            }
        }
        true
    }
}

/// An empty label mapping is always supported, whatever the filter holds.
pub proof fn lemma_supports_empty(f: Map<Seq<char>, Seq<char>>)
    ensures
        spec_supports(f, Map::empty()),
{
}

/// A job whose labels all have empty values or internal keys is supported,
/// whatever the filter holds.
pub proof fn lemma_supports_irrelevant_labels(f: Map<Seq<char>, Seq<char>>, m: Map<
    Seq<char>,
    Seq<char>,
>)
    requires
        forall|k: Seq<char>| #[trigger] m.contains_key(k) ==> m[k].len() == 0
            || internal_label_key(k),
    ensures
        spec_supports(f, m),
{
}

/// A filter entry with the wildcard value accepts any value for that key.
pub proof fn lemma_wildcard_accepts(
    f: Map<Seq<char>, Seq<char>>,
    k: Seq<char>,
    v: Seq<char>,
)
    requires
        f.contains_key(k),
        f[k] == "*"@,
    ensures
        spec_supports(f, Map::empty().insert(k, v)),
{
}

/// A filter entry with a concrete value rejects a job that requires a
/// different, non-empty value for that key.
pub proof fn lemma_mismatch_rejects(
    f: Map<Seq<char>, Seq<char>>,
    k: Seq<char>,
    v: Seq<char>,
)
    requires
        f.contains_key(k),
        f[k] != "*"@,
        f[k] != v,
        v.len() > 0,
        !internal_label_key(k),
    ensures
        !spec_supports(f, Map::empty().insert(k, v)),
{
    let m = Map::empty().insert(k, v);
    assert(m.contains_key(k));
    assert(!label_pair_ok(f, k, m[k]));
}

} // verus!
