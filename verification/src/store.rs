//! The feature store: a mapping from identity name to an ordered collection
//! of feature vectors, with atomic bulk replace.
//!
//! Feature vectors are fixed-length numeric embeddings; the library carries
//! their components as fixed-point integers handed in by the caller.

use vstd::prelude::*;

verus! {

/// One feature vector: the components of an embedding, in fixed-point form.
pub type Feature = Vec<i64>;

/// One identity: its name and every feature vector gathered from its
/// reference images.
pub struct IdentityRecord {
    pub name: String,
    pub features: Vec<Feature>,
}

/// One (identity, feature vector) pair, as produced by flattening the store
/// for scoring.
pub struct Candidate {
    pub name: String,
    pub feature: Feature,
}

/// The mathematical contents of a record sequence: a map from name to feature
/// vectors, later entries overwriting earlier ones of the same name.
pub open spec fn store_map_of(s: Seq<IdentityRecord>) -> Map<Seq<char>, Seq<Seq<i64>>>
    decreases s.len(),
{
    if s.len() == 0 {
        Map::empty()
    } else {
        store_map_of(s.drop_last()).insert(s.last().name@, s.last().features.deep_view())
    }
}

/// No two records carry the same name.
pub open spec fn unique_names(s: Seq<IdentityRecord>) -> bool {
    forall|i: int, j: int| 0 <= i < j < s.len() ==> s[i].name@ != s[j].name@
}

/// The names of a record sequence, in order.
pub open spec fn names_of(s: Seq<IdentityRecord>) -> Seq<Seq<char>> {
    s.map(|i: int, r: IdentityRecord| r.name@)
}

/// Whether some record of the sequence carries this name.
pub open spec fn has_name(s: Seq<IdentityRecord>, name: Seq<char>) -> bool {
    exists|i: int| 0 <= i < s.len() && s[i].name@ == name
}

/// Inserting a record: the record of the same name is replaced in place, or
/// the new record is appended.
pub open spec fn insert_rec(s: Seq<IdentityRecord>, r: IdentityRecord) -> Seq<IdentityRecord> {
    if has_name(s, r.name@) {
        s.update(choose|i: int| 0 <= i < s.len() && s[i].name@ == r.name@, r)
    } else {
        s.push(r)
    }
}

/// The (name, feature) pairs of one record, in feature order.
pub open spec fn pairs_of_record(r: IdentityRecord) -> Seq<(Seq<char>, Seq<i64>)> {
    Seq::new(r.features@.len(), |i: int| (r.name@, r.features@[i]@))
}

/// Every (name, feature) pair of a record sequence, in record order and, per
/// record, in feature order.
pub open spec fn flatten_recs(s: Seq<IdentityRecord>) -> Seq<(Seq<char>, Seq<i64>)>
    decreases s.len(),
{
    if s.len() == 0 {
        Seq::empty()
    } else {
        flatten_recs(s.drop_last()) + pairs_of_record(s.last())
    }
}

/// The view of a candidate vector: its (name, feature) pairs.
pub open spec fn candidates_view(cs: Seq<Candidate>) -> Seq<(Seq<char>, Seq<i64>)> {
    cs.map(|i: int, c: Candidate| (c.name@, c.feature@))
}

/// A store of identity records. Names are unique; the records keep their
/// insertion order.
pub struct FeatureStore {
    entries: Vec<IdentityRecord>,
}

impl FeatureStore {
    /// The records of the store, in order.
    pub closed spec fn recs(&self) -> Seq<IdentityRecord> {
        self.entries@
    }

    /// The store as a map from identity name to feature vectors.
    pub open spec fn as_map(&self) -> Map<Seq<char>, Seq<Seq<i64>>> {
        store_map_of(self.recs())
    }

    /// The names of the store, in record order.
    pub open spec fn names(&self) -> Seq<Seq<char>> {
        names_of(self.recs())
    }

    /// Well-formedness: record names are unique.
    pub open spec fn wf(&self) -> bool {
        unique_names(self.recs())
    }

    /// An empty store.
    pub fn new() -> (r: Self)
        ensures
            r.wf(),
            r.recs() =~= Seq::<IdentityRecord>::empty(),
            r.as_map() =~= Map::<Seq<char>, Seq<Seq<i64>>>::empty(),
    {
        FeatureStore { entries: Vec::new() }
    }

    /// Empties the store.
    pub fn clear(&mut self)
        ensures
            final(self).wf(),
            final(self).recs() =~= Seq::<IdentityRecord>::empty(),
            final(self).as_map() =~= Map::<Seq<char>, Seq<Seq<i64>>>::empty(),
    {
        self.entries.clear();
    }

    /// The number of identities in the store.
    pub fn len(&self) -> (r: usize)
        ensures
            r == self.recs().len(),
    {
        self.entries.len()
    }

    /// The position of the record of this name, if one exists.
    fn index_of(&self, name: &String) -> (r: Option<usize>)
        ensures
            match r {
                Some(i) => 0 <= i < self.recs().len() && self.recs()[i as int].name@ == name@,
                None => forall|j: int| 0 <= j < self.recs().len() ==> self.recs()[j].name@ != name@,
            },
    {
        let n = self.entries.len();
        let mut i: usize = 0;
        while i < n
            invariant
                n == self.recs().len(),
                i <= n,
                forall|j: int| 0 <= j < i ==> self.recs()[j].name@ != name@,
            decreases n - i,
        {
            if self.entries[i].name.eq(name) {
                return Some(i);
            }
            i += 1;
        }
        None
    }

    /// Inserts an identity, replacing an existing record of the same name
    /// (last write wins).
    pub fn insert(&mut self, name: String, features: Vec<Feature>)
        requires
            old(self).wf(),
        ensures
            final(self).wf(),
            final(self).recs() == insert_rec(old(self).recs(), IdentityRecord { name, features }),
    {
        let idx = self.index_of(&name);
        let ghost pre = self.entries@;
        let ghost rec_g = IdentityRecord { name: name, features: features };
        match idx {
            Some(i) => {
                let rec = IdentityRecord { name, features };
                self.entries[i] = rec;
                proof {
                    assert(has_name(pre, rec_g.name@));
                    let j = choose|j: int| 0 <= j < pre.len() && pre[j].name@ == rec_g.name@;
                    assert(j == i) by {
                        if j < i {
                            assert(pre[j].name@ != pre[i as int].name@);
                        } else if i < j {
                            assert(pre[i as int].name@ != pre[j].name@);
                        }
                    };
                    assert(self.entries@ =~= insert_rec(pre, rec_g));
                    lemma_insert_rec(pre, rec_g);
                }
            },
            None => {
                self.entries.push(IdentityRecord { name, features });
                proof {
                    assert(!has_name(pre, rec_g.name@));
                    assert(self.entries@ =~= insert_rec(pre, rec_g));
                    lemma_insert_rec(pre, rec_g);
                }
            },
        }
    }

    /// Looks an identity up by name.
    pub fn get(&self, name: &String) -> (r: Option<&Vec<Feature>>)
        requires
            self.wf(),
        ensures
            match r {
                Some(f) => self.as_map().contains_key(name@) && f.deep_view()
                    == self.as_map()[name@],
                None => !self.as_map().contains_key(name@),
            },
    {
        proof {
            lemma_map_of_contains(self.recs());
        }
        match self.index_of(name) {
            Some(i) => Some(&self.entries[i].features),
            None => None,
        }
    }

    /// Whether the store holds an identity of this name.
    pub fn contains_name(&self, name: &String) -> (r: bool)
        requires
            self.wf(),
        ensures
            r == self.as_map().contains_key(name@),
    {
        match self.get(name) {
            Some(_) => true,
            None => false,
        }
    }

    /// Every (identity, feature vector) pair of the store, in record order:
    /// the iteration domain of a best-match query.
    pub fn candidates(&self) -> (r: Vec<Candidate>)
        ensures
            candidates_view(r@) =~= flatten_recs(self.recs()),
    {
        let mut out: Vec<Candidate> = Vec::new();
        let n = self.entries.len();
        let mut i: usize = 0;
        while i < n
            invariant
                n == self.entries@.len(),
                i <= n,
                candidates_view(out@) =~= flatten_recs(self.entries@.subrange(0, i as int)),
            decreases n - i,
        {
            let mut pairs = record_pairs(&self.entries[i]);
            let ghost out_pre = out@;
            let ghost pairs_pre = pairs@;
            out.append(&mut pairs);
            proof {
                assert(candidates_view(out@) =~= candidates_view(out_pre) + candidates_view(
                    pairs_pre,
                ));
                assert(self.entries@.subrange(0, i as int + 1).drop_last() =~= self.entries@
                    .subrange(0, i as int));
                assert(self.entries@.subrange(0, i as int + 1).last() == self.entries@[i as int]);
            }
            i += 1;
        }
        proof {
            assert(self.entries@.subrange(0, n as int) =~= self.entries@);
        }
        out
    }
}

/// The (name, feature) pairs of one record, as owned values.
fn record_pairs(rec: &IdentityRecord) -> (r: Vec<Candidate>)
    ensures
        candidates_view(r@) =~= pairs_of_record(*rec),
{
    let mut out: Vec<Candidate> = Vec::new();
    let m = rec.features.len();
    let mut j: usize = 0;
    while j < m
        invariant
            m == rec.features@.len(),
            j <= m,
            candidates_view(out@) =~= pairs_of_record(*rec).subrange(0, j as int),
        decreases m - j,
    {
        let feature = copy_feature(&rec.features[j]);
        let cname = rec.name.clone();
        let ghost gname = cname@;
        let ghost gfeat = feature@;
        let ghost out_pre = out@;
        out.push(Candidate { name: cname, feature });
        proof {
            assert(gname == rec.name@);
            assert(gfeat == rec.features@[j as int]@);
            assert(candidates_view(out@) =~= candidates_view(out_pre).push((gname, gfeat)));
            assert(pairs_of_record(*rec).subrange(0, j as int + 1) =~= pairs_of_record(
                *rec,
            ).subrange(0, j as int).push(pairs_of_record(*rec)[j as int]));
        }
        j += 1;
    }
    out
}

/// An element-for-element copy of a feature vector.
fn copy_feature(f: &Feature) -> (r: Feature)
    ensures
        r@ =~= f@,
{
    let mut out: Feature = Vec::new();
    let n = f.len();
    let mut k: usize = 0;
    while k < n
        invariant
            n == f@.len(),
            k <= n,
            out@ =~= f@.subrange(0, k as int),
        decreases n - k,
    {
        out.push(f[k]);
        k += 1;
    }
    out
}

/// Inserting a record keeps names unique and is, on the map side, an insert
/// of its name; names already present keep their place, new names go last.
pub proof fn lemma_insert_rec(s: Seq<IdentityRecord>, r: IdentityRecord)
    requires
        unique_names(s),
    ensures
        unique_names(insert_rec(s, r)),
        store_map_of(insert_rec(s, r)) =~= store_map_of(s).insert(r.name@, r.features.deep_view()),
        has_name(s, r.name@) ==> names_of(insert_rec(s, r)) =~= names_of(s),
        !has_name(s, r.name@) ==> names_of(insert_rec(s, r)) =~= names_of(s).push(r.name@),
{
    if has_name(s, r.name@) {
        let i = choose|i: int| 0 <= i < s.len() && s[i].name@ == r.name@;
        lemma_map_of_update(s, i, r);
        assert(names_of(insert_rec(s, r)) =~= names_of(s));
    } else {
        assert(insert_rec(s, r).drop_last() =~= s);
        assert(names_of(insert_rec(s, r)) =~= names_of(s).push(r.name@));
        assert(forall|i: int| 0 <= i < s.len() ==> s[i].name@ != r.name@);
    }
}

/// Updating the record that already carries a name is, on the map side, an
/// insert of that name.
pub proof fn lemma_map_of_update(s: Seq<IdentityRecord>, i: int, r: IdentityRecord)
    requires
        unique_names(s),
        0 <= i < s.len(),
        s[i].name@ == r.name@,
    ensures
        store_map_of(s.update(i, r)) =~= store_map_of(s).insert(r.name@, r.features.deep_view()),
        unique_names(s.update(i, r)),
    decreases s.len(),
{
    if i == s.len() - 1 {
        assert(s.update(i, r).drop_last() =~= s.drop_last());
        assert(s.update(i, r).last() == r);
    } else {
        assert(s.update(i, r).drop_last() =~= s.drop_last().update(i, r));
        lemma_map_of_update(s.drop_last(), i, r);
        assert(s.update(i, r).last() == s.last());
        assert(s.last().name@ != r.name@);
        assert(store_map_of(s.update(i, r)) =~= store_map_of(s.drop_last()).insert(
            r.name@,
            r.features.deep_view(),
        ).insert(s.last().name@, s.last().features.deep_view()));
    }
}

/// With unique names, the map's domain is exactly the record names, and each
/// name maps to its record's feature vectors.
pub proof fn lemma_map_of_contains(s: Seq<IdentityRecord>)
    requires
        unique_names(s),
    ensures
        forall|k: Seq<char>| #[trigger]
            store_map_of(s).contains_key(k) ==> exists|i: int| 0 <= i < s.len() && s[i].name@ == k,
        forall|i: int|
            0 <= i < s.len() ==> store_map_of(s).contains_key(#[trigger] s[i].name@)
                && store_map_of(s)[s[i].name@] == s[i].features.deep_view(),
    decreases s.len(),
{
    if s.len() > 0 {
        lemma_map_of_contains(s.drop_last());
        assert(forall|i: int| 0 <= i < s.len() - 1 ==> s.drop_last()[i] == s[i]);
        assert(forall|i: int|
            0 <= i < s.len() - 1 ==> s[i].name@ != s.last().name@ && store_map_of(s)[#[trigger] s[i].name@]
                == store_map_of(s.drop_last())[s[i].name@]);
        assert forall|k: Seq<char>| #[trigger]
            store_map_of(s).contains_key(k) implies exists|i: int|
            0 <= i < s.len() && s[i].name@ == k by {
            if k == s.last().name@ {
                assert(s[s.len() - 1].name@ == k);
            } else {
                assert(store_map_of(s.drop_last()).contains_key(k));
                let i = choose|i: int| 0 <= i < s.len() - 1 && s.drop_last()[i].name@ == k;
                assert(s[i].name@ == k);
            }
        };
    }
}

} // verus!
