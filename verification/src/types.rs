//! Core value types: load status, detected faces, match results.

use crate::geometry::{scale_coord, scale_coord_spec, Dims, FaceBox, COORD_BOUND};
use crate::store::Feature;
use crate::text::{lower_of, lowercase, score_milli_to_string, score_str};
use vstd::prelude::*;
use vstd::string::*;

verus! {

/// The load-state of the gallery. The feature store is safe to query only in
/// state `Loaded`; a query during `Loading` is answered from the previous
/// complete snapshot.
#[derive(Clone, Copy, PartialEq, Eq, Structural, Debug)]
pub enum DbLoadStatus {
    NotLoaded,
    Loading,
    Loaded,
}

impl DbLoadStatus {
    /// The display label of this status.
    pub fn to_label(&self) -> (r: String)
        ensures
            r@ == self.label_spec(),
    {
        proof {
            reveal_strlit("NOT_LOADED");
            reveal_strlit("LOADING");
            reveal_strlit("LOADED");
        }
        match self {
            DbLoadStatus::NotLoaded => String::from_str("NOT_LOADED"),
            DbLoadStatus::Loading => String::from_str("LOADING"),
            DbLoadStatus::Loaded => String::from_str("LOADED"),
        }
    }

    /// What `to_label` returns.
    pub open spec fn label_spec(&self) -> Seq<char> {
        match self {
            DbLoadStatus::NotLoaded => "NOT_LOADED"@,
            DbLoadStatus::Loading => "LOADING"@,
            DbLoadStatus::Loaded => "LOADED"@,
        }
    }
}

/// One scored match: an identity name — or the reserved "Unknown" sentinel —
/// and its similarity score, in fixed-point thousandths.
pub struct MatchResult {
    pub name: String,
    pub score: i64,
}

impl MatchResult {
    /// The (name, score) pair this result stands for.
    pub open spec fn model(&self) -> (Seq<char>, i64) {
        (self.name@, self.score)
    }

    /// A match result from a name and a score.
    pub fn new(name: String, score: i64) -> (r: Self)
        ensures
            r.model() == (name@, score),
    {
        MatchResult { name, score }
    }

    /// A field-for-field copy.
    pub fn duplicate(&self) -> (r: Self)
        ensures
            r.model() == self.model(),
    {
        MatchResult { name: self.name.clone(), score: self.score }
    }

    /// The name, lowercase-folded.
    pub fn to_lower_case(&self) -> (r: String)
        ensures
            r@ == lower_of(self.name@),
    {
        lowercase(self.name.as_str())
    }

    /// Whether this result is the reserved sentinel for "no identity matched"
    /// (its name folds to "unknown").
    pub fn is_unknown(&self) -> (r: bool)
        ensures
            r == (lower_of(self.name@) == "unknown"@),
    {
        let lower = self.to_lower_case();
        lower.eq(&String::from_str("unknown"))
    }

    /// The display rendering: the bare name for the sentinel, otherwise the
    /// name followed by the score with two fraction digits in parentheses.
    pub fn to_string(&self) -> (r: String)
        ensures
            lower_of(self.name@) == "unknown"@ ==> r@ == self.name@,
            lower_of(self.name@) != "unknown"@ ==> r@ == self.name@ + " ("@ + score_str(
                self.score as int,
            ) + ")"@,
    {
        proof {
            reveal_strlit(" (");
            reveal_strlit(")");
        }
        if self.is_unknown() {
            self.name.clone()
        } else {
            let mut s = self.name.clone();
            s.append(" (");
            let sc = score_milli_to_string(self.score);
            s.append(sc.as_str());
            s.append(")");
            proof {
                assert(s@ =~= self.name@ + " ("@ + score_str(self.score as int) + ")"@);
            }
            s
        }
    }
}

/// Every scored candidate of one query, in encounter order, together with the
/// single best match.
pub struct MatchResults {
    pub results: Vec<MatchResult>,
    pub best_match: MatchResult,
}

/// One detection result: a bounding region in the coordinate space of the
/// frame detection ran on (which may be a resized copy), the feature vector
/// extracted from it, and both frame sizes. The detection-space size travels
/// with the value so regions can be rescaled to any target frame.
pub struct DetectedFace {
    pub name: String,
    pub face_box: Option<FaceBox>,
    pub feature: Feature,
    pub original_size: Dims,
    pub detection_size: Dims,
}

impl DetectedFace {
    /// Whether the stored region and sizes are small enough to rescale
    /// within machine words.
    pub open spec fn scale_bounds(&self) -> bool {
        match self.face_box {
            None => true,
            Some(b) => -COORD_BOUND <= b.x <= COORD_BOUND && -COORD_BOUND <= b.y <= COORD_BOUND
                && -COORD_BOUND <= b.width <= COORD_BOUND && -COORD_BOUND <= b.height
                <= COORD_BOUND,
        }
    }

    /// A detection whose region is in the original frame's own space.
    pub fn new(
        name: String,
        face_box: Option<FaceBox>,
        feature: Feature,
        original_size: Dims,
    ) -> (r: Self)
        ensures
            r.name@ == name@,
            r.face_box == face_box,
            r.feature@ == feature@,
            r.original_size == original_size,
            r.detection_size == original_size,
    {
        DetectedFace { name, face_box, feature, original_size, detection_size: original_size }
    }

    /// A detection made on a resized copy: the region is in `detection_size`
    /// space.
    pub fn new_with_detection_size(
        name: String,
        face_box: Option<FaceBox>,
        feature: Feature,
        original_size: Dims,
        detection_size: Dims,
    ) -> (r: Self)
        ensures
            r.name@ == name@,
            r.face_box == face_box,
            r.feature@ == feature@,
            r.original_size == original_size,
            r.detection_size == detection_size,
    {
        DetectedFace { name, face_box, feature, original_size, detection_size }
    }

    /// The bounding region as detected; all zero when there is none.
    pub fn bbox(&self) -> (r: FaceBox)
        ensures
            match self.face_box {
                Some(b) => r == b,
                None => r == (FaceBox { x: 0i64, y: 0i64, width: 0i64, height: 0i64 }),
            },
    {
        match &self.face_box {
            Some(b) => *b,
            None => FaceBox { x: 0, y: 0, width: 0, height: 0 },
        }
    }

    /// The bounding region rescaled from detection space to a target frame's
    /// space; returned unchanged when detection space is degenerate or the
    /// sizes already agree, all zero when there is no region.
    pub fn bbox_scaled(&self, target_size: Dims) -> (r: FaceBox)
        requires
            self.scale_bounds(),
            self.detection_size.width <= COORD_BOUND,
            self.detection_size.height <= COORD_BOUND,
            0 < target_size.width <= COORD_BOUND,
            0 < target_size.height <= COORD_BOUND,
        ensures
            match self.face_box {
                None => r == (FaceBox { x: 0i64, y: 0i64, width: 0i64, height: 0i64 }),
                Some(b) => {
                    if self.detection_size.width > 0 && self.detection_size.height > 0 && (
                    self.detection_size.width != target_size.width || self.detection_size.height
                        != target_size.height) {
                        r.x == scale_coord_spec(
                            b.x as int,
                            target_size.width as int,
                            self.detection_size.width as int,
                        ) && r.y == scale_coord_spec(
                            b.y as int,
                            target_size.height as int,
                            self.detection_size.height as int,
                        ) && r.width == scale_coord_spec(
                            b.width as int,
                            target_size.width as int,
                            self.detection_size.width as int,
                        ) && r.height == scale_coord_spec(
                            b.height as int,
                            target_size.height as int,
                            self.detection_size.height as int,
                        )
                    } else {
                        r == b
                    }
                },
            },
    {
        let b = match &self.face_box {
            Some(b) => *b,
            None => {
                return FaceBox { x: 0, y: 0, width: 0, height: 0 };
            },
        };
        let det = self.detection_size;
        if det.width > 0 && det.height > 0 && (det.width != target_size.width || det.height
            != target_size.height) {
            FaceBox {
                x: scale_coord(b.x, target_size.width, det.width),
                y: scale_coord(b.y, target_size.height, det.height),
                width: scale_coord(b.width, target_size.width, det.width),
                height: scale_coord(b.height, target_size.height, det.height),
            }
        } else {
            b
        }
    }
}

} // verus!
