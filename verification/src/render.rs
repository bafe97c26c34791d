//! The map renderer's model: which points a record set marks.
//!
//! The display draws a world outline in a bordered panel and marks one
//! glyph per record at the record's coordinates, on an equirectangular
//! projection bounded by longitude [-180, 180] and latitude [-90, 90]
//! degrees. The marks are a pure function of the record set alone: a
//! redraw with the same records yields the identical marks, and the marks
//! of a grown set are recomputed whole, so nothing accumulates across
//! calls.

use vstd::prelude::*;

use crate::record::LocationRecord;
use crate::record::LATITUDE_LIMIT_MICRO;
use crate::record::LONGITUDE_LIMIT_MICRO;

verus! {

/// One marked point of the map panel, in microdegrees.
#[derive(Clone, Copy, Debug, PartialEq, Eq, Structural)]
pub struct Mark {
    pub longitude_micro: i64,
    pub latitude_micro: i64,
}

/// The mark of one record: the record's own coordinates.
pub open spec fn mark_of(r: LocationRecord) -> Mark {
    Mark { longitude_micro: r.longitude_micro, latitude_micro: r.latitude_micro }
}

/// The marks of a record set: one mark per record, in set order.
pub open spec fn spec_marks(rs: Seq<LocationRecord>) -> Seq<Mark> {
    rs.map_values(|r: LocationRecord| mark_of(r))
}

/// Computes the marks of the current record set: exactly one mark per
/// record, each at that record's coordinates.
pub fn render_marks(records: &Vec<LocationRecord>) -> (marks: Vec<Mark>)
    ensures
        marks@ == spec_marks(records@),
        marks@.len() == records@.len(),
        forall|i: int| 0 <= i < records@.len() ==> marks@[i] == mark_of(#[trigger] records@[i]),
{
    let mut marks: Vec<Mark> = Vec::new();
    let mut i: usize = 0;
    proof {
        assert(marks@ =~= spec_marks(records@.subrange(0, 0)));
    }
    while i < records.len()
        invariant
            0 <= i <= records@.len(),
            marks@ == spec_marks(records@.subrange(0, i as int)),
        decreases records@.len() - i,
    {
        let ghost olds = marks@;
        marks.push(
            Mark {
                longitude_micro: records[i].longitude_micro,
                latitude_micro: records[i].latitude_micro,
            },
        );
        proof {
            assert(records@.subrange(0, i + 1).drop_last() =~= records@.subrange(0, i as int));
            assert(marks@ =~= spec_marks(records@.subrange(0, i as int)).push(
                mark_of(records@[i as int]),
            ));
            assert(marks@ =~= spec_marks(records@.subrange(0, i + 1)));
        }
        i = i + 1;
    }
    proof {
        assert(records@.subrange(0, records@.len() as int) =~= records@);
    }
    marks
}

/// Rendering is idempotent: the marks are a function of the record set
/// alone, so two renders of the same set mark the identical points and no
/// mark accumulates across calls.
pub proof fn lemma_render_idempotent(rs1: Seq<LocationRecord>, rs2: Seq<LocationRecord>)
    requires
        rs1 == rs2,
    ensures
        spec_marks(rs1) == spec_marks(rs2),
{
}

/// Arrival order never changes which points are marked: two record sets
/// that are permutations of one another mark the same multiset of points.
pub proof fn lemma_marks_order_independent(rs1: Seq<LocationRecord>, rs2: Seq<LocationRecord>)
    requires
        rs1.to_multiset() == rs2.to_multiset(),
    ensures
        spec_marks(rs1).to_multiset() == spec_marks(rs2).to_multiset(),
    decreases rs1.len(),
{
    broadcast use vstd::seq_lib::group_to_multiset_ensures;
    broadcast use vstd::multiset::group_multiset_axioms;

    if rs1.len() == 0 {
        assert(rs1.to_multiset().len() == 0);
        assert(rs2.len() == 0);
        assert(spec_marks(rs1) =~= spec_marks(rs2));
    } else {
        let x = rs1.last();
        assert(rs1[rs1.len() - 1] == x);
        assert(rs1.contains(x));
        assert(rs1.to_multiset().contains(x));
        assert(rs2.to_multiset().count(x) > 0);
        assert(rs2.contains(x));
        let j = choose|j: int| 0 <= j < rs2.len() && rs2[j] == x;
        let rs1p = rs1.drop_last();
        let rs2p = rs2.remove(j);
        assert(rs1.remove(rs1.len() - 1) =~= rs1p);
        assert(rs1p.to_multiset() == rs1.to_multiset().remove(x));
        assert(rs2p.to_multiset() == rs2.to_multiset().remove(x));
        lemma_marks_order_independent(rs1p, rs2p);
        assert(spec_marks(rs1p).push(mark_of(x)) =~= spec_marks(rs1));
        assert(spec_marks(rs1).to_multiset() == spec_marks(rs1p).to_multiset().insert(
            mark_of(x),
        ));
        assert(spec_marks(rs2p) =~= spec_marks(rs2).remove(j));
        assert(spec_marks(rs2).remove(j).to_multiset() == spec_marks(rs2).to_multiset().remove(
            spec_marks(rs2)[j],
        ));
        assert(spec_marks(rs2)[j] == mark_of(x));
        assert(spec_marks(rs2).contains(mark_of(x)));
        assert(spec_marks(rs2).to_multiset().count(mark_of(x)) > 0);
        assert(spec_marks(rs2).to_multiset() =~= spec_marks(rs2).to_multiset().remove(
            mark_of(x),
        ).insert(mark_of(x)));
    }
}

/// Every mark of a well-formed record set lies inside the projection
/// bounds of the panel.
pub proof fn lemma_marks_within_bounds(rs: Seq<LocationRecord>)
    requires
        forall|i: int| 0 <= i < rs.len() ==> #[trigger] rs[i].wf(),
    ensures
        forall|i: int|
            0 <= i < spec_marks(rs).len() ==> -LONGITUDE_LIMIT_MICRO <= (
            #[trigger] spec_marks(rs)[i]).longitude_micro <= LONGITUDE_LIMIT_MICRO
                && -LATITUDE_LIMIT_MICRO <= spec_marks(rs)[i].latitude_micro
                <= LATITUDE_LIMIT_MICRO,
{
    assert forall|i: int|
        0 <= i < spec_marks(rs).len() implies -LONGITUDE_LIMIT_MICRO <= (
    #[trigger] spec_marks(rs)[i]).longitude_micro <= LONGITUDE_LIMIT_MICRO
        && -LATITUDE_LIMIT_MICRO <= spec_marks(rs)[i].latitude_micro
        <= LATITUDE_LIMIT_MICRO by {
        assert(rs[i].wf());
        assert(spec_marks(rs)[i] == mark_of(rs[i]));
    }
}

} // verus!
