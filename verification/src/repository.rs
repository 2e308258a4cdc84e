use vstd::prelude::*;

use crate::document::{spec_from_json, ParseError, ParsedDoc};
use crate::strategy::{BlackjackStrategy, DocModel, StrategyVariables};
use crate::text::str_eq;

verus! {

/// The position of the first entry carrying the key, if any.
pub open spec fn spec_key_at<T>(m: Seq<(Seq<char>, T)>, key: Seq<char>) -> Option<int>
    decreases m.len(),
{
    if m.len() == 0 {
        None
    } else if m[0].0 == key {
        Some(0)
    } else {
        match spec_key_at(m.drop_first(), key) {
            Some(i) => Some(i + 1),
            None => None,
        }
    }
}

pub proof fn lemma_key_at_bounds<T>(m: Seq<(Seq<char>, T)>, key: Seq<char>)
    ensures
        spec_key_at(m, key) matches Some(i) ==> 0 <= i < m.len() && m[i].0 == key && (forall|k: int|
            0 <= k < i ==> m[k].0 != key),
        spec_key_at(m, key) is None ==> forall|k: int| 0 <= k < m.len() ==> m[k].0 != key,
    decreases m.len(),
{
    if m.len() > 0 && m[0].0 != key {
        lemma_key_at_bounds(m.drop_first(), key);
        assert(forall|k: int| 1 <= k < m.len() ==> #[trigger] m[k] == m.drop_first()[k - 1]);
        match spec_key_at(m.drop_first(), key) {
            Some(i) => {
                assert(m.drop_first()[i].0 == key);
                assert(m[i + 1].0 == key);
            },
            None => {},
        }
    }
}

/// Inserting under a key that is present replaces that entry in place; a
/// new key is appended: deterministic last-wins.
pub open spec fn spec_repo_insert<T>(m: Seq<(Seq<char>, T)>, key: Seq<char>, doc: T) -> Seq<
    (Seq<char>, T),
> {
    match spec_key_at(m, key) {
        Some(i) => m.update(i, (key, doc)),
        None => m.push((key, doc)),
    }
}

/// Two keyed sequences agree on keys, and each document satisfies what its
/// source asked for.
pub open spec fn repo_matches(m: Seq<(Seq<char>, DocModel)>, bm: Seq<(Seq<char>, ParsedDoc)>) -> bool {
    &&& m.len() == bm.len()
    &&& forall|i: int| 0 <= i < m.len() ==> (#[trigger] m[i]).0 == bm[i].0
    &&& forall|i: int| 0 <= i < m.len() ==> model_matches((#[trigger] m[i]).1, bm[i].1)
}

/// Whether a document model is exactly what a source asked for, any fresh
/// identifier allowed.
pub open spec fn model_matches(dm: DocModel, pd: ParsedDoc) -> bool {
    &&& (match pd.id {
        Some(b) => dm.id == b,
        None => dm.id.len() == 16 && !crate::ids::spec_id_is_nil(dm.id),
    })
    &&& dm.name == pd.name
    &&& dm.description == pd.description
    &&& dm.rules == pd.rules
    &&& dm.tables == pd.tables
    &&& dm.legend == pd.legend
}

proof fn lemma_key_at_congruent<T, U>(
    m: Seq<(Seq<char>, T)>,
    bm: Seq<(Seq<char>, U)>,
    key: Seq<char>,
)
    requires
        m.len() == bm.len(),
        forall|i: int| 0 <= i < m.len() ==> (#[trigger] m[i]).0 == bm[i].0,
    ensures
        spec_key_at(m, key) == spec_key_at(bm, key),
    decreases m.len(),
{
    if m.len() > 0 {
        assert(m[0].0 == bm[0].0);
        if m[0].0 != key {
            assert(forall|i: int|
                0 <= i < m.drop_first().len() ==> (#[trigger] m.drop_first()[i]).0
                    == bm.drop_first()[i].0);
            lemma_key_at_congruent(m.drop_first(), bm.drop_first(), key);
        }
    }
}

/// One step of a bulk load: a source that parses is inserted under its key,
/// one that does not leaves the cache unchanged.
pub open spec fn spec_build_step(
    acc: Seq<(Seq<char>, ParsedDoc)>,
    src: (Seq<char>, Seq<char>),
) -> Seq<(Seq<char>, ParsedDoc)> {
    match spec_from_json(src.1) {
        Ok(pd) => spec_repo_insert(acc, src.0, pd),
        Err(_) => acc,
    }
}

/// The cache after loading the first `n` sources in order.
pub open spec fn spec_build_model_upto(srcs: Seq<(Seq<char>, Seq<char>)>, n: int) -> Seq<
    (Seq<char>, ParsedDoc),
>
    decreases n,
{
    if n <= 0 {
        Seq::empty()
    } else {
        spec_build_step(spec_build_model_upto(srcs, n - 1), srcs[n - 1])
    }
}

/// The failures reported while loading the first `n` sources, in order.
pub open spec fn spec_build_failures_upto(srcs: Seq<(Seq<char>, Seq<char>)>, n: int) -> Seq<
    (Seq<char>, ParseError),
>
    decreases n,
{
    if n <= 0 {
        Seq::empty()
    } else {
        let rest = spec_build_failures_upto(srcs, n - 1);
        match spec_from_json(srcs[n - 1].1) {
            Ok(_) => rest,
            Err(e) => rest.push((srcs[n - 1].0, e)),
        }
    }
}

/// The process-scoped cache of loaded strategies, keyed by the source's
/// base name. Keys are unique; lookups never mutate it.
#[derive(Debug)]
pub struct StrategyRepository {
    entries: Vec<(String, BlackjackStrategy)>,
}

impl StrategyRepository {
    /// The repository as a keyed sequence of document models.
    pub closed spec fn model(&self) -> Seq<(Seq<char>, DocModel)> {
        Seq::new(self.entries@.len(), |i: int| (self.entries@[i].0@, self.entries@[i].1.model()))
    }

    /// Keys are unique, and every cached document is well formed.
    pub closed spec fn wf(&self) -> bool {
        &&& forall|i: int, j: int|
            0 <= i < j < self.model().len() ==> self.model()[i].0 != self.model()[j].0
        &&& forall|i: int| 0 <= i < self.entries@.len() ==> (#[trigger] self.entries@[i]).1.wf()
    }

    /// An empty repository.
    pub fn new() -> (r: Self)
        ensures
            r.wf(),
            r.model() == Seq::<(Seq<char>, DocModel)>::empty(),
    {
        let r = StrategyRepository { entries: Vec::new() };
        proof {
            assert(r.model() =~= Seq::<(Seq<char>, DocModel)>::empty());
        }
        r
    }

    /// Stores a document under a key: replaces the entry carrying the key,
    /// or appends a new one — deterministic last-wins.
    #[verifier::loop_isolation(false)]
    pub fn insert(&mut self, key: String, doc: BlackjackStrategy)
        requires
            old(self).wf(),
            doc.wf(),
        ensures
            final(self).wf(),
            final(self).model() == spec_repo_insert(old(self).model(), key@, doc.model()),
    {
        proof {
            lemma_key_at_bounds(self.model(), key@);
        }
        let ghost old_model = self.model();
        let mut i: usize = 0;
        while i < self.entries.len()
            invariant
                i <= self.entries@.len(),
                forall|k: int| 0 <= k < i ==> old_model[k].0 != key@,
                old_model == self.model(),
                old(self) == self,
            decreases self.entries@.len() - i,
        {
            if str_eq(self.entries[i].0.as_str(), key.as_str()) {
                proof {
                    lemma_key_at_first(old_model, key@, i as int);
                }
                self.entries[i] = (key, doc);
                proof {
                    assert(self.model() =~= old_model.update(
                        i as int,
                        (key@, doc.model()),
                    ));
                }
                return ;
            }
            i += 1;
        }
        proof {
            lemma_key_at_none(old_model, key@);
        }
        self.entries.push((key, doc));
        proof {
            assert(self.model() =~= old_model.push((key@, doc.model())));
        }
    }

    /// The number of cached strategies.
    pub fn len(&self) -> (n: usize)
        ensures
            n == self.model().len(),
    {
        self.entries.len()
    }

    /// The cached strategy under a key, if any.
    pub fn get<'a>(&'a self, key: &str) -> (r: Option<&'a BlackjackStrategy>)
        ensures
            (match (r, spec_key_at(self.model(), key@)) {
                (Some(doc), Some(i)) => doc.model() == self.model()[i].1 && (self.wf()
                    ==> doc.wf()),
                (None, None) => true,
                _ => false,
            }),
    {
        let mut i: usize = 0;
        while i < self.entries.len()
            invariant
                i <= self.entries@.len(),
                forall|k: int| 0 <= k < i ==> self.model()[k].0 != key@,
            decreases self.entries@.len() - i,
        {
            if str_eq(self.entries[i].0.as_str(), key) {
                proof {
                    lemma_key_at_first(self.model(), key@, i as int);
                }
                return Some(&self.entries[i].1);
            }
            i += 1;
        }
        proof {
            lemma_key_at_none(self.model(), key@);
        }
        None
    }

    /// The names of all cached strategies, in cache order.
    #[verifier::loop_isolation(false)]
    pub fn keys(&self) -> (r: Vec<String>)
        ensures
            r.deep_view() == Seq::new(self.model().len(), |i: int| self.model()[i].0),
    {
        let mut r: Vec<String> = Vec::new();
        let mut i: usize = 0;
        while i < self.entries.len()
            invariant
                i <= self.entries@.len(),
                r@.len() == i,
                forall|t: int| 0 <= t < i ==> r.deep_view()[t] == #[trigger] self.model()[t].0,
            decreases self.entries@.len() - i,
        {
            r.push(self.entries[i].0.clone());
            i += 1;
        }
        proof {
            assert(r.deep_view() =~= Seq::new(self.model().len(), |i: int| self.model()[i].0));
        }
        r
    }

    /// Scans the cache for a document whose rule set equals the given one
    /// structurally. Returns the first match in cache order; `None` exactly
    /// when no cached document carries these rules.
    pub fn find_exact<'a>(&'a self, rules: StrategyVariables) -> (r: Option<(
        &'a String,
        &'a BlackjackStrategy,
    )>)
        ensures
            (match r {
                Some((key, doc)) => exists|i: int|
                    0 <= i < self.model().len() && #[trigger] self.model()[i] == (
                        key@,
                        doc.model(),
                    ) && doc.model().rules == rules && (forall|k: int|
                        0 <= k < i ==> self.model()[k].1.rules != rules),
                None => forall|i: int|
                    0 <= i < self.model().len() ==> (#[trigger] self.model()[i]).1.rules != rules,
            }),
            r is Some && self.wf() ==> (r->0).1.wf(),
    {
        let mut i: usize = 0;
        while i < self.entries.len()
            invariant
                i <= self.entries@.len(),
                forall|k: int| 0 <= k < i ==> (#[trigger] self.model()[k]).1.rules != rules,
            decreases self.entries@.len() - i,
        {
            let entry = &self.entries[i];
            if entry.1.rules == rules {
                proof {
                    assert(self.model()[i as int] == (entry.0@, entry.1.model()));
                }
                return Some((&entry.0, &entry.1));
            }
            i += 1;
        }
        None
    }

    /// Resolves a rule set to a document: the first exact match, else the
    /// document under the well-known fallback key, else nothing.
    pub fn resolve_with_fallback<'a>(&'a self, rules: StrategyVariables, fallback_key: &str) -> (r:
        Option<&'a BlackjackStrategy>)
        ensures
            (exists|i: int|
                0 <= i < self.model().len() && (#[trigger] self.model()[i]).1.rules == rules)
                ==> r is Some && r->0.model().rules == rules,
            (forall|i: int|
                0 <= i < self.model().len() ==> (#[trigger] self.model()[i]).1.rules != rules)
                ==> (match (r, spec_key_at(self.model(), fallback_key@)) {
                (Some(doc), Some(i)) => doc.model() == self.model()[i].1,
                (None, None) => true,
                _ => false,
            }),
            r is Some && self.wf() ==> r->0.wf(),
    {
        match self.find_exact(rules) {
            Some((_, doc)) => Some(doc),
            None => self.get(fallback_key),
        }
    }

    /// Loads every source in order, best effort: a source that parses is
    /// cached under its key (last wins on duplicate keys); one that does
    /// not is skipped and reported, never fatal.
    #[verifier::loop_isolation(false)]
    pub fn build(sources: &Vec<(String, String)>) -> (r: (
        StrategyRepository,
        Vec<(String, ParseError)>,
    ))
        ensures
            r.0.wf(),
            repo_matches(
                r.0.model(),
                spec_build_model_upto(sources.deep_view(), sources.deep_view().len() as int),
            ),
            Seq::new(r.1@.len(), |i: int| (r.1@[i].0@, r.1@[i].1)) == spec_build_failures_upto(
                sources.deep_view(),
                sources.deep_view().len() as int,
            ),
    {
        let ghost srcs = sources.deep_view();
        let mut repo = StrategyRepository::new();
        let mut failures: Vec<(String, ParseError)> = Vec::new();
        let mut i: usize = 0;
        proof {
            assert(repo.model() =~= Seq::<(Seq<char>, DocModel)>::empty());
        }
        while i < sources.len()
            invariant
                i <= sources@.len(),
                srcs.len() == sources@.len(),
                repo.wf(),
                repo_matches(repo.model(), spec_build_model_upto(srcs, i as int)),
                Seq::new(failures@.len(), |t: int| (failures@[t].0@, failures@[t].1))
                    == spec_build_failures_upto(srcs, i as int),
            decreases sources@.len() - i,
        {
            let entry = &sources[i];
            let ghost prev_model = repo.model();
            let ghost prev_bm = spec_build_model_upto(srcs, i as int);
            proof {
                assert(srcs[i as int] == (entry.0@, entry.1@));
            }
            match BlackjackStrategy::from_json(entry.1.as_str()) {
                Ok(doc) => {
                    proof {
                        lemma_key_at_congruent(prev_model, prev_bm, entry.0@);
                        lemma_key_at_bounds(prev_model, entry.0@);
                        lemma_key_at_bounds(prev_bm, entry.0@);
                    }
                    repo.insert(entry.0.clone(), doc);
                },
                Err(e) => {
                    failures.push((entry.0.clone(), e));
                    proof {
                        assert(Seq::new(
                            failures@.len(),
                            |t: int| (failures@[t].0@, failures@[t].1),
                        ) =~= spec_build_failures_upto(srcs, i + 1));
                    }
                },
            }
            i += 1;
        }
        (repo, failures)
    }
}

proof fn lemma_key_at_first<T>(m: Seq<(Seq<char>, T)>, key: Seq<char>, i: int)
    requires
        0 <= i < m.len(),
        m[i].0 == key,
        forall|k: int| 0 <= k < i ==> m[k].0 != key,
    ensures
        spec_key_at(m, key) == Some(i),
    decreases i,
{
    if i > 0 {
        lemma_key_at_first(m.drop_first(), key, i - 1);
    }
}

proof fn lemma_key_at_none<T>(m: Seq<(Seq<char>, T)>, key: Seq<char>)
    requires
        forall|k: int| 0 <= k < m.len() ==> m[k].0 != key,
    ensures
        spec_key_at(m, key) is None,
    decreases m.len(),
{
    if m.len() > 0 {
        lemma_key_at_none(m.drop_first(), key);
    }
}

} // verus!
