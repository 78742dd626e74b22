//! The gallery manager: the load/reload state machine over the feature store,
//! the configured target path, and the watcher flag.
//!
//! A load is driven in steps: `load_begin` decides whether work is needed and
//! moves to `Loading`; `load_add_identity` fills a separate build area while
//! the readable snapshot stays untouched; `load_commit` installs the build
//! area as the new snapshot in one step; `load_fail` reverts the status and
//! discards the build area, leaving the previous snapshot intact.

use crate::errors::FaceRecognitionError;
use crate::geometry::{resize_spec, resize_target, Dims, COORD_BOUND};
use crate::store::{
    has_name,
    insert_rec,
    lemma_insert_rec,
    lemma_map_of_contains,
    store_map_of,
    unique_names,
    Feature,
    FeatureStore,
    IdentityRecord,
};
use crate::types::DbLoadStatus;
use vstd::prelude::*;

verus! {

/// The abstract state of a gallery manager.
pub ghost struct GalleryModel {
    /// The load status visible to readers.
    pub status: DbLoadStatus,
    /// The status to revert to if the load in progress fails.
    pub prior: DbLoadStatus,
    /// The configured target path.
    pub path: Option<Seq<char>>,
    /// The readable snapshot: the records queries see.
    pub store: Seq<IdentityRecord>,
    /// The records gathered by the load in progress.
    pub building: Seq<IdentityRecord>,
    /// The largest file-modification timestamp observed at the last load,
    /// in milliseconds.
    pub mod_time: u64,
    /// Whether the directory watcher is running.
    pub watching: bool,
    /// The maximum working dimension for resizing before detection.
    pub max_size: i64,
}

impl GalleryModel {
    /// The readable snapshot as a map from identity name to feature vectors.
    pub open spec fn store_map(self) -> Map<Seq<char>, Seq<Seq<i64>>> {
        store_map_of(self.store)
    }

    /// The build area as a map from identity name to feature vectors.
    pub open spec fn building_map(self) -> Map<Seq<char>, Seq<Seq<i64>>> {
        store_map_of(self.building)
    }

    /// A model is well formed when both record areas have unique names and
    /// the revert status is itself never `Loading`.
    pub open spec fn wf(self) -> bool {
        &&& unique_names(self.store)
        &&& unique_names(self.building)
        &&& self.prior != DbLoadStatus::Loading
    }
}

/// What `load_begin(path, force)` does: on the idempotent fast path (same
/// path, already `Loaded`, not forced) nothing; otherwise the status moves to
/// `Loading`, the build area is emptied, and the readable snapshot stays as
/// it is.
pub open spec fn load_begin_tr(m: GalleryModel, path: Seq<char>, force: bool) -> (bool,
    GalleryModel) {
    let same = m.path == Some(path);
    if same && m.status == DbLoadStatus::Loaded && !force {
        (false, m)
    } else {
        (
            true,
            GalleryModel {
                status: DbLoadStatus::Loading,
                prior: if same {
                    m.status
                } else {
                    DbLoadStatus::NotLoaded
                },
                path: Some(path),
                building: Seq::empty(),
                ..m
            },
        )
    }
}

/// What `load_add_identity(name, features)` does: the record is added to the
/// build area, last write winning for a repeated name; the readable snapshot
/// stays as it is.
pub open spec fn load_add_tr(m: GalleryModel, rec: IdentityRecord) -> GalleryModel {
    GalleryModel { building: insert_rec(m.building, rec), ..m }
}

/// What `load_commit(mod_time)` does: the build area becomes the readable
/// snapshot in one step, the status moves to `Loaded`, and the observed
/// modification timestamp is recorded.
pub open spec fn load_commit_tr(m: GalleryModel, mod_time: u64) -> GalleryModel {
    GalleryModel {
        status: DbLoadStatus::Loaded,
        store: m.building,
        building: Seq::empty(),
        mod_time: mod_time,
        ..m
    }
}

/// What `load_fail` does: the status reverts to its pre-load value and the
/// build area is discarded; the readable snapshot stays as it is.
pub open spec fn load_fail_tr(m: GalleryModel) -> GalleryModel {
    GalleryModel { status: m.prior, building: Seq::empty(), ..m }
}

/// A whole load's worth of identity additions, applied in order.
pub open spec fn load_adds_tr(m: GalleryModel, adds: Seq<IdentityRecord>) -> GalleryModel
    decreases adds.len(),
{
    if adds.len() == 0 {
        m
    } else {
        load_add_tr(load_adds_tr(m, adds.drop_last()), adds.last())
    }
}

/// Additions touch only the build area: the readable snapshot and every other
/// part of the model stay as they were.
pub proof fn lemma_adds_touch_only_building(m: GalleryModel, adds: Seq<IdentityRecord>)
    ensures
        load_adds_tr(m, adds) == (GalleryModel { building: load_adds_tr(m, adds).building, ..m }),
    decreases adds.len(),
{
    if adds.len() > 0 {
        lemma_adds_touch_only_building(m, adds.drop_last());
    }
}

/// After a run of additions, the build area holds exactly the names it
/// already had and those of the added records, and its names stay unique.
pub proof fn lemma_adds_collect_names(m: GalleryModel, adds: Seq<IdentityRecord>)
    requires
        unique_names(m.building),
    ensures
        unique_names(load_adds_tr(m, adds).building),
        forall|k: Seq<char>|
            #[trigger] store_map_of(load_adds_tr(m, adds).building).contains_key(k) <==> (
            store_map_of(m.building).contains_key(k) || has_name(adds, k)),
    decreases adds.len(),
{
    lemma_map_of_names(m.building);
    if adds.len() == 0 {
        assert(forall|k: Seq<char>| !has_name(Seq::<IdentityRecord>::empty(), k));
    } else {
        let prev = load_adds_tr(m, adds.drop_last());
        let last = adds.last();
        lemma_adds_collect_names(m, adds.drop_last());
        lemma_insert_rec_keys(prev.building, last);
        assert forall|k: Seq<char>|
            #[trigger] store_map_of(load_adds_tr(m, adds).building).contains_key(k) implies (
        store_map_of(m.building).contains_key(k) || has_name(adds, k)) by {
            if k == last.name@ {
                assert(adds[adds.len() - 1].name@ == k);
            } else {
                assert(store_map_of(prev.building).contains_key(k));
                if has_name(adds.drop_last(), k) {
                    let i = choose|i: int|
                        0 <= i < adds.len() - 1 && adds.drop_last()[i].name@ == k;
                    assert(adds[i].name@ == k);
                }
            }
        };
        assert forall|k: Seq<char>| (store_map_of(m.building).contains_key(k) || has_name(
            adds,
            k,
        )) implies #[trigger] store_map_of(load_adds_tr(m, adds).building).contains_key(k) by {
            if k == last.name@ {
            } else if store_map_of(m.building).contains_key(k) {
                assert(store_map_of(prev.building).contains_key(k));
            } else {
                let i = choose|i: int| 0 <= i < adds.len() && adds[i].name@ == k;
                assert(adds.drop_last()[i].name@ == k);
                assert(store_map_of(prev.building).contains_key(k));
            }
        };
    }
}

/// `insert_rec` adds exactly one key to the map of a record sequence.
pub proof fn lemma_insert_rec_keys(s: Seq<IdentityRecord>, r: IdentityRecord)
    requires
        unique_names(s),
    ensures
        unique_names(insert_rec(s, r)),
        forall|k: Seq<char>|
            #[trigger] store_map_of(insert_rec(s, r)).contains_key(k) <==> (store_map_of(
                s,
            ).contains_key(k) || k == r.name@),
{
    lemma_insert_rec(s, r);
}

/// With unique names, a record sequence's map holds a key exactly when some
/// record carries it.
pub proof fn lemma_map_of_names(s: Seq<IdentityRecord>)
    requires
        unique_names(s),
    ensures
        forall|k: Seq<char>| #[trigger] store_map_of(s).contains_key(k) <==> has_name(s, k),
{
    lemma_map_of_contains(s);
    assert forall|k: Seq<char>| has_name(s, k) implies #[trigger] store_map_of(
        s,
    ).contains_key(k) by {
        let i = choose|i: int| 0 <= i < s.len() && s[i].name@ == k;
        assert(store_map_of(s).contains_key(s[i].name@));
    };
}

/// Idempotence: beginning a load of the already-loaded path without force
/// decides against rebuilding and changes nothing.
pub proof fn lemma_load_idempotent(m: GalleryModel, path: Seq<char>)
    requires
        m.status == DbLoadStatus::Loaded,
        m.path == Some(path),
    ensures
        load_begin_tr(m, path, false).0 == false,
        load_begin_tr(m, path, false).1 == m,
{
}

/// A forced load always rebuilds, whatever the current path and status.
pub proof fn lemma_forced_reload_rebuilds(m: GalleryModel, path: Seq<char>)
    ensures
        load_begin_tr(m, path, true).0 == true,
        load_begin_tr(m, path, true).1.status == DbLoadStatus::Loading,
{
}

/// Reload atomicity: from `load_begin` through every addition the readable
/// snapshot is exactly the pre-reload one, and `load_commit` makes it exactly
/// the records just built — a query concurrent with a reload therefore sees
/// one complete snapshot or the other, never a mixture.
pub proof fn lemma_reload_atomicity(
    m: GalleryModel,
    path: Seq<char>,
    force: bool,
    adds: Seq<IdentityRecord>,
    mod_time: u64,
)
    ensures
        load_begin_tr(m, path, force).1.store == m.store,
        load_adds_tr(load_begin_tr(m, path, force).1, adds).store == m.store,
        load_commit_tr(load_adds_tr(load_begin_tr(m, path, force).1, adds), mod_time).store
            == load_adds_tr(load_begin_tr(m, path, force).1, adds).building,
{
    lemma_adds_touch_only_building(load_begin_tr(m, path, force).1, adds);
}

/// Completeness and no phantom entries: a committed load holds exactly the
/// identity names that were added during it — one per scanned subdirectory —
/// and no others.
pub proof fn lemma_load_complete(
    m: GalleryModel,
    path: Seq<char>,
    force: bool,
    adds: Seq<IdentityRecord>,
    mod_time: u64,
)
    requires
        m.wf(),
        load_begin_tr(m, path, force).0,
    ensures
        forall|k: Seq<char>|
            #[trigger] load_commit_tr(
                load_adds_tr(load_begin_tr(m, path, force).1, adds),
                mod_time,
            ).store_map().contains_key(k) <==> has_name(adds, k),
{
    let begun = load_begin_tr(m, path, force).1;
    assert(begun.building =~= Seq::<IdentityRecord>::empty());
    lemma_adds_collect_names(begun, adds);
}

/// The gallery manager.
pub struct FaceRecognition {
    max_size: i64,
    db_load_status: DbLoadStatus,
    features_map: FeatureStore,
    building: FeatureStore,
    db_path: Option<String>,
    last_mod_time: u64,
    prior_status: DbLoadStatus,
    watcher_running: bool,
}

impl View for FaceRecognition {
    type V = GalleryModel;

    closed spec fn view(&self) -> GalleryModel {
        GalleryModel {
            status: self.db_load_status,
            prior: self.prior_status,
            path: match self.db_path {
                Some(p) => Some(p@),
                None => None,
            },
            store: self.features_map.recs(),
            building: self.building.recs(),
            mod_time: self.last_mod_time,
            watching: self.watcher_running,
            max_size: self.max_size,
        }
    }
}

impl FaceRecognition {
    /// A fresh manager: nothing loaded, nothing configured, no watcher. The
    /// maximum working dimension defaults to 600 when none is given.
    pub fn new(max_size: Option<i64>) -> (r: Self)
        ensures
            r@.wf(),
            r@ == (GalleryModel {
                status: DbLoadStatus::NotLoaded,
                prior: DbLoadStatus::NotLoaded,
                path: None,
                store: Seq::<IdentityRecord>::empty(),
                building: Seq::<IdentityRecord>::empty(),
                mod_time: 0u64,
                watching: false,
                max_size: (match max_size {
                    Some(s) => s,
                    None => 600,
                }),
            }),
    {
        let ms = match max_size {
            Some(s) => s,
            None => 600,
        };
        let r = FaceRecognition {
            max_size: ms,
            db_load_status: DbLoadStatus::NotLoaded,
            features_map: FeatureStore::new(),
            building: FeatureStore::new(),
            db_path: None,
            last_mod_time: 0,
            prior_status: DbLoadStatus::NotLoaded,
            watcher_running: false,
        };
        proof {
            assert(r@.store =~= Seq::<IdentityRecord>::empty());
            assert(r@.building =~= Seq::<IdentityRecord>::empty());
        }
        r
    }

    /// Reconfigures the maximum working dimension.
    pub fn set_max_size(&mut self, size: i64)
        ensures
            final(self)@ == (GalleryModel { max_size: size, ..old(self)@ }),
    {
        self.max_size = size;
    }

    /// The configured maximum working dimension.
    pub fn max_size(&self) -> (r: i64)
        ensures
            r == self@.max_size,
    {
        self.max_size
    }

    /// The currently configured target path.
    pub fn get_db_path(&self) -> (r: Option<String>)
        ensures
            match r {
                Some(p) => self@.path == Some(p@),
                None => self@.path is None,
            },
    {
        match &self.db_path {
            Some(p) => Some(p.clone()),
            None => None,
        }
    }

    /// The load status visible to readers.
    pub fn load_status(&self) -> (r: DbLoadStatus)
        ensures
            r == self@.status,
    {
        self.db_load_status
    }

    /// The modification timestamp recorded at the last successful load.
    pub fn last_mod_time(&self) -> (r: u64)
        ensures
            r == self@.mod_time,
    {
        self.last_mod_time
    }

    /// Configures the target path. A differing path resets the status to
    /// `NotLoaded`; no load is triggered.
    pub fn set_db_path(&mut self, path: String)
        ensures
            final(self)@ == (GalleryModel {
                status: DbLoadStatus::NotLoaded,
                path: Some(path@),
                ..old(self)@
            }),
    {
        self.db_load_status = DbLoadStatus::NotLoaded;
        self.db_path = Some(path);
    }

    /// Decides whether a load of `path` must run, and if so enters `Loading`
    /// with an empty build area. The readable snapshot is untouched either
    /// way.
    pub fn load_begin(&mut self, path: String, force: bool) -> (proceed: bool)
        requires
            old(self)@.wf(),
            old(self)@.status != DbLoadStatus::Loading,
        ensures
            final(self)@.wf(),
            proceed == load_begin_tr(old(self)@, path@, force).0,
            final(self)@ == load_begin_tr(old(self)@, path@, force).1,
    {
        let same = match &self.db_path {
            Some(p) => p.eq(&path),
            None => false,
        };
        if same && matches!(self.db_load_status, DbLoadStatus::Loaded) && !force {
            return false;
        }
        self.prior_status = if same {
            self.db_load_status
        } else {
            DbLoadStatus::NotLoaded
        };
        self.db_path = Some(path);
        self.db_load_status = DbLoadStatus::Loading;
        self.building.clear();
        true
    }

    /// Records one identity's gathered feature vectors in the build area.
    /// The readable snapshot is untouched.
    pub fn load_add_identity(&mut self, name: String, features: Vec<Feature>)
        requires
            old(self)@.wf(),
            old(self)@.status == DbLoadStatus::Loading,
        ensures
            final(self)@.wf(),
            final(self)@ == load_add_tr(old(self)@, IdentityRecord { name, features }),
    {
        self.building.insert(name, features);
    }

    /// Installs the build area as the new readable snapshot in one step and
    /// moves to `Loaded`, recording the largest file-modification timestamp
    /// observed under the tree.
    pub fn load_commit(&mut self, mod_time: u64)
        requires
            old(self)@.wf(),
            old(self)@.status == DbLoadStatus::Loading,
        ensures
            final(self)@.wf(),
            final(self)@ == load_commit_tr(old(self)@, mod_time),
    {
        let mut built = FeatureStore::new();
        core::mem::swap(&mut built, &mut self.building);
        self.features_map = built;
        self.db_load_status = DbLoadStatus::Loaded;
        self.last_mod_time = mod_time;
        proof {
            assert(final(self)@.building =~= Seq::<IdentityRecord>::empty());
        }
    }

    /// Abandons the load in progress: the status reverts to its pre-load
    /// value and the previous snapshot stays queryable.
    pub fn load_fail(&mut self)
        requires
            old(self)@.wf(),
            old(self)@.status == DbLoadStatus::Loading,
        ensures
            final(self)@.wf(),
            final(self)@ == load_fail_tr(old(self)@),
    {
        self.db_load_status = self.prior_status;
        self.building.clear();
        proof {
            assert(final(self)@.building =~= Seq::<IdentityRecord>::empty());
        }
    }

    /// One whole load: decides whether work is needed, and if so rebuilds
    /// the gallery from the given records (one per identity directory, in
    /// scan order, last write winning for a repeated name) and installs it
    /// atomically. Returns whether a rebuild ran. On the idempotent fast
    /// path — same path, already `Loaded`, not forced — nothing changes.
    ///
    /// The caller walks the directory tree and runs the embedding extractor
    /// to produce `records`; a caller that fails mid-scan calls `load_fail`
    /// after `load_begin` instead.
    pub fn load_persons_db(
        &mut self,
        path: String,
        force: bool,
        records: Vec<IdentityRecord>,
        mod_time: u64,
    ) -> (loaded: bool)
        requires
            old(self)@.wf(),
            old(self)@.status != DbLoadStatus::Loading,
        ensures
            final(self)@.wf(),
            loaded == load_begin_tr(old(self)@, path@, force).0,
            !loaded ==> final(self)@ == old(self)@,
            loaded ==> final(self)@ == load_commit_tr(
                load_adds_tr(load_begin_tr(old(self)@, path@, force).1, records@),
                mod_time,
            ),
    {
        let ghost orig = records@;
        let proceed = self.load_begin(path, force);
        if !proceed {
            return false;
        }
        let ghost begun = self@;
        let mut remaining = records;
        while remaining.len() > 0
            invariant
                self@.wf(),
                self@.status == DbLoadStatus::Loading,
                remaining@.len() <= orig.len(),
                remaining@ =~= orig.subrange(
                    orig.len() - remaining@.len(),
                    orig.len() as int,
                ),
                self@ == load_adds_tr(
                    begun,
                    orig.subrange(0, orig.len() - remaining@.len()),
                ),
            decreases remaining@.len(),
        {
            let ghost k = orig.len() - remaining@.len();
            let rec = remaining.remove(0);
            proof {
                assert(rec == orig[k]);
                assert(orig.subrange(0, k + 1).drop_last() =~= orig.subrange(0, k));
                assert(orig.subrange(0, k + 1).last() == orig[k]);
            }
            self.load_add_identity(rec.name, rec.features);
            proof {
                assert(remaining@ =~= orig.subrange(orig.len() - remaining@.len(), orig.len() as int));
            }
        }
        proof {
            assert(orig.subrange(0, orig.len() as int) =~= orig);
        }
        self.load_commit(mod_time);
        true
    }

    /// The resize decision for a frame of `cols` by `rows` pixels under this
    /// manager's configured maximum working dimension: `None` when the frame
    /// is used as it is.
    pub fn resize_frame(&self, cols: i64, rows: i64, keep_aspect_ratio: bool) -> (r: Option<Dims>)
        requires
            0 < cols <= COORD_BOUND,
            0 < rows <= COORD_BOUND,
            self@.max_size <= COORD_BOUND,
        ensures
            match r {
                Some(d) => resize_spec(
                    cols as int,
                    rows as int,
                    self@.max_size as int,
                    keep_aspect_ratio,
                ) == Some((d.width as int, d.height as int)),
                None => resize_spec(
                    cols as int,
                    rows as int,
                    self@.max_size as int,
                    keep_aspect_ratio,
                ) is None,
            },
    {
        resize_target(cols, rows, self.max_size, keep_aspect_ratio)
    }

    /// The consistent view a query reads: valid for the whole query even if a
    /// load is in progress, since loads build aside and install atomically.
    pub fn snapshot_for_read(&self) -> (r: &FeatureStore)
        requires
            self@.wf(),
        ensures
            r.wf(),
            r.recs() == self@.store,
    {
        &self.features_map
    }

    /// Marks the watcher as running. `Ok(true)` tells the caller to start
    /// the OS-level observer and records the given baseline timestamp;
    /// `Ok(false)` means it already runs. Fails when no target path is
    /// configured.
    pub fn start_watching(&mut self, latest_mod_time: u64) -> (r: Result<
        bool,
        FaceRecognitionError,
    >)
        ensures
            match r {
                Result::Err(e) => old(self)@.path is None && final(self)@ == old(self)@
                    && e is DatabaseNotLoaded,
                Result::Ok(started) => old(self)@.path is Some && (if started {
                    !old(self)@.watching && final(self)@ == (GalleryModel {
                        watching: true,
                        mod_time: latest_mod_time,
                        ..old(self)@
                    })
                } else {
                    old(self)@.watching && final(self)@ == old(self)@
                }),
            },
    {
        if self.db_path.is_none() {
            return Err(FaceRecognitionError::DatabaseNotLoaded);
        }
        if self.watcher_running {
            return Ok(false);
        }
        self.last_mod_time = latest_mod_time;
        self.watcher_running = true;
        Ok(true)
    }

    /// Marks the watcher as stopped; safe to call when it is not running.
    pub fn stop_watching(&mut self)
        ensures
            final(self)@ == (GalleryModel { watching: false, ..old(self)@ }),
    {
        self.watcher_running = false;
    }
}

} // verus!
