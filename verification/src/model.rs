use vstd::prelude::*;

verus! {

/// A point of the map: an OpenStreetMap element id with its latitude and longitude. The
/// two angles are held as the bit patterns of their IEEE-754 binary64 values
/// (`f64::to_bits`), so that the library can carry them and test them exactly.
#[derive(Debug, Clone, Copy, PartialEq, Eq, Structural)]
pub struct Coordinates {
    pub id: i64,
    pub lat: u64,
    pub lon: u64,
}

/// The bits of `+0.0` and of `-0.0`: the two encodings that compare equal to `0.0`.
pub open spec fn is_zero_angle(bits: u64) -> bool {
    bits == 0 || bits == 0x8000_0000_0000_0000
}

/// A set of points, as the map service and the database hand them over.
pub struct MapData {
    pub coordinates: Vec<Coordinates>,
}

impl Default for Coordinates {
    /// Id 0 at latitude and longitude `+0.0`.
    fn default() -> (c: Self)
        ensures
            c == (Coordinates { id: 0, lat: 0, lon: 0 }),
    {
        Coordinates { id: 0, lat: 0, lon: 0 }
    }
}

impl Coordinates {
    /// Whether the latitude differs from zero (`lat != 0.0`); a NaN latitude counts as
    /// different.
    pub fn has_latitude(&self) -> (r: bool)
        ensures
            r == !is_zero_angle(self.lat),
    {
        self.lat != 0 && self.lat != 0x8000_0000_0000_0000
    }
}

/// The points of `points` whose latitude is not zero, in their order.
pub open spec fn with_latitude(points: Seq<Coordinates>) -> Seq<Coordinates> {
    points.filter(|c: Coordinates| !is_zero_angle(c.lat))
}

impl MapData {
    /// Wraps a list of points.
    pub fn from(coordinates: Vec<Coordinates>) -> (data: Self)
        ensures
            data.coordinates@ == coordinates@,
    {
        Self { coordinates }
    }

    /// The points that get stored: those whose latitude is not zero, in their order.
    /// Elements that the map service sends without a position (relations and ways) come
    /// with latitude `0.0`.
    pub fn storable(&self) -> (points: Vec<Coordinates>)
        ensures
            points@ == with_latitude(self.coordinates@),
    {
        let mut points: Vec<Coordinates> = Vec::new();
        let mut i: usize = 0;
        while i < self.coordinates.len()
            invariant
                i <= self.coordinates@.len(),
                points@ == with_latitude(self.coordinates@.take(i as int)),
            decreases self.coordinates@.len() - i,
        {
            let c = self.coordinates[i];
            proof {
                reveal_with_fuel(Seq::<Coordinates>::filter, 1);
                assert(self.coordinates@.take(i + 1).drop_last() == self.coordinates@.take(i as int));
            }
            if c.has_latitude() {
                points.push(c);
            }
            i = i + 1;
        }
        assert(self.coordinates@.take(i as int) == self.coordinates@);
        points
    }
}

/// The points of `points` whose flag in `keep` is set, in their order.
pub open spec fn select(points: Seq<Coordinates>, keep: Seq<bool>) -> Seq<Coordinates>
    decreases points.len(),
{
    if points.len() == 0 {
        seq![]
    } else {
        select(points.drop_last(), keep.drop_last()) + if keep.last() {
            seq![points.last()]
        } else {
            seq![]
        }
    }
}

impl MapData {
    /// The points for which `keep` answers `true`, in their order; `keep` is asked once
    /// about each point, first to last.
    pub fn keep_where<F: Fn(&Coordinates) -> bool>(self, keep: F) -> (kept: MapData)
        requires
            forall|c: &Coordinates| keep.requires((c,)),
        ensures
            exists|answers: Seq<bool>|
                {
                    &&& answers.len() == self.coordinates@.len()
                    &&& forall|i: int|
                        0 <= i < answers.len() ==> keep.ensures(
                            (&self.coordinates@[i],),
                            #[trigger] answers[i],
                        )
                    &&& kept.coordinates@ == select(self.coordinates@, answers)
                },
    {
        let ghost points = self.coordinates@;
        let ghost mut answers: Seq<bool> = Seq::empty();
        let mut kept: Vec<Coordinates> = Vec::new();
        let mut i: usize = 0;
        while i < self.coordinates.len()
            invariant
                i <= points.len(),
                points == self.coordinates@,
                forall|c: &Coordinates| keep.requires((c,)),
                answers.len() == i,
                forall|j: int| 0 <= j < i ==> keep.ensures((&points[j],), #[trigger] answers[j]),
                kept@ == select(points.take(i as int), answers),
            decreases points.len() - i,
        {
            let c = self.coordinates[i];
            let inside = keep(&c);
            proof {
                let next = answers.push(inside);
                assert(points.take(i + 1).drop_last() == points.take(i as int));
                assert(next.drop_last() == answers);
                answers = next;
            }
            if inside {
                kept.push(c);
            }
            i = i + 1;
        }
        assert(points.take(i as int) == points);
        MapData { coordinates: kept }
    }
}

/// The points of `points` for which `keep` holds, in their order.
pub open spec fn select_by(points: Seq<Coordinates>, keep: spec_fn(Coordinates) -> bool) -> Seq<Coordinates> {
    select(points, points.map_values(keep))
}

/// Selecting by answers that a predicate gives for each point is selecting by the
/// predicate: what `keep_where` returns for a predicate that always answers the same for a
/// point.
pub proof fn lemma_select_answers(points: Seq<Coordinates>, answers: Seq<bool>, keep: spec_fn(Coordinates) -> bool)
    requires
        answers.len() == points.len(),
        forall|i: int| 0 <= i < points.len() ==> answers[i] == keep(#[trigger] points[i]),
    ensures
        select(points, answers) == select_by(points, keep),
{
    assert(answers =~= points.map_values(keep));
}

/// One step of `select_by`: the selection of all but the last point, then the last point
/// if it is kept.
proof fn lemma_select_by_last(points: Seq<Coordinates>, keep: spec_fn(Coordinates) -> bool)
    requires
        points.len() > 0,
    ensures
        select_by(points, keep) == select_by(points.drop_last(), keep) + if keep(points.last()) {
            seq![points.last()]
        } else {
            seq![]
        },
{
    assert(points.map_values(keep).drop_last() =~= points.drop_last().map_values(keep));
}

/// Selecting from two lists one after the other is selecting from each in turn.
pub proof fn lemma_select_by_concat(a: Seq<Coordinates>, b: Seq<Coordinates>, keep: spec_fn(Coordinates) -> bool)
    ensures
        select_by(a + b, keep) == select_by(a, keep) + select_by(b, keep),
    decreases b.len(),
{
    if b.len() == 0 {
        assert(a + b =~= a);
        assert(select_by(b, keep) =~= Seq::<Coordinates>::empty());
    } else {
        lemma_select_by_concat(a, b.drop_last(), keep);
        lemma_select_by_last(a + b, keep);
        lemma_select_by_last(b, keep);
        assert((a + b).drop_last() =~= a + b.drop_last());
        assert((a + b).last() == b.last());
    }
}

/// Selecting again by the same predicate keeps everything: the city filter, applied to its
/// own result, gives that result back.
pub proof fn lemma_select_by_idempotent(points: Seq<Coordinates>, keep: spec_fn(Coordinates) -> bool)
    ensures
        select_by(select_by(points, keep), keep) == select_by(points, keep),
    decreases points.len(),
{
    if points.len() > 0 {
        lemma_select_by_idempotent(points.drop_last(), keep);
        lemma_select_by_last(points, keep);
        let last = points.last();
        let part = if keep(last) { seq![last] } else { seq![] };
        lemma_select_by_concat(select_by(points.drop_last(), keep), part, keep);
        if keep(last) {
            lemma_select_by_last(part, keep);
            assert(part.drop_last() =~= Seq::<Coordinates>::empty());
            assert(select_by(part.drop_last(), keep) =~= Seq::<Coordinates>::empty());
            assert(select_by(part, keep) =~= part);
        } else {
            assert(select_by(part, keep) =~= Seq::<Coordinates>::empty());
        }
    } else {
        assert(select_by(points, keep) =~= Seq::<Coordinates>::empty());
    }
}

} // verus!
