//! The potentially visible set: decoding visibility rows and keeping the
//! ordered list of faces that the camera's leaf can see.

use vstd::prelude::*;

use crate::world::{
    decode_face, CompactPlane, Contents, Leaf, TextureInfo, Vec3I16, Vec3I32, VisibleFace, WorldMap,
};

verus! {

/// What decoding `room` bytes of a run-length encoded row from `source` on
/// yields: whether the row is complete, and the bytes up to its end or up to
/// the place where it breaks. A zero byte is followed by the length of a run
/// of zeros.
pub open spec fn rle_bytes(input: Seq<u8>, source: int, room: nat) -> (bool, Seq<u8>)
    decreases room,
{
    if room == 0 {
        (true, Seq::empty())
    } else if source >= input.len() {
        (false, Seq::empty())
    } else if input[source] != 0 {
        let rest = rle_bytes(input, source + 1, (room - 1) as nat);
        (rest.0, seq![input[source]] + rest.1)
    } else if source + 1 >= input.len() || input[source + 1] == 0 || input[source + 1] > room {
        (false, Seq::empty())
    } else {
        let run = input[source + 1] as nat;
        let rest = rle_bytes(input, source + 2, (room - run) as nat);
        (rest.0, zeros(run) + rest.1)
    }
}

pub open spec fn zeros(count: nat) -> Seq<u8> {
    Seq::new(count, |i: int| 0u8)
}

/// `row` with `bytes` written over its front.
pub open spec fn overwritten(row: Seq<u8>, bytes: Seq<u8>) -> Seq<u8> {
    Seq::new(row.len(), |i: int| if i < bytes.len() { bytes[i] } else { row[i] })
}

/// `row` with `bytes` joined bit by bit into its front.
pub open spec fn joined(row: Seq<u8>, bytes: Seq<u8>) -> Seq<u8> {
    Seq::new(row.len(), |i: int| if i < bytes.len() { row[i] | bytes[i] } else { row[i] })
}

/// Decode one visibility row into `output`. `false` when the stream ends or
/// breaks before the row is full; the bytes before that point are written.
pub fn decompress_visibility(input: &Vec<u8>, offset: usize, output: &mut Vec<u8>) -> (complete: bool)
    ensures
        complete == rle_bytes(input@, offset as int, old(output)@.len()).0,
        final(output)@ == overwritten(
            old(output)@,
            rle_bytes(input@, offset as int, old(output)@.len()).1,
        ),
{
    let ghost before: Seq<u8> = output@;
    let ghost whole: (bool, Seq<u8>) = rle_bytes(input@, offset as int, output@.len());
    let ghost mut decoded: Seq<u8> = Seq::empty();
    let mut source: usize = offset;
    let mut destination: usize = 0;
    assert(output@ =~= overwritten(before, decoded));
    assert(decoded + whole.1 =~= whole.1);
    while destination < output.len()
        invariant
            destination <= output@.len(),
            output@.len() == before.len(),
            decoded.len() == destination,
            output@ == overwritten(before, decoded),
            whole.0 == rle_bytes(input@, source as int, (before.len() - destination) as nat).0,
            whole.1 == decoded + rle_bytes(
                input@,
                source as int,
                (before.len() - destination) as nat,
            ).1,
            whole == rle_bytes(input@, offset as int, before.len()),
            before == old(output)@,
        decreases output@.len() - destination,
    {
        let ghost rest: (bool, Seq<u8>) = rle_bytes(
            input@,
            source as int,
            (before.len() - destination) as nat,
        );
        if source >= input.len() {
            assert(decoded + rest.1 =~= decoded);
            return false;
        }
        let value: u8 = input[source];
        source += 1;
        if value != 0 {
            output.set(destination, value);
            destination += 1;
            proof {
                let tail = rle_bytes(input@, source as int, (before.len() - destination) as nat).1;
                assert(decoded + (seq![value] + tail) =~= decoded.push(value) + tail);
                decoded = decoded.push(value);
                assert(output@ =~= overwritten(before, decoded));
            }
            continue;
        }
        if source >= input.len() {
            assert(decoded + rest.1 =~= decoded);
            return false;
        }
        let run: u8 = input[source];
        source += 1;
        if run == 0 || run as usize > output.len() - destination {
            assert(decoded + rest.1 =~= decoded);
            return false;
        }
        let end: usize = destination + run as usize;
        let ghost start: int = destination as int;
        let ghost base: Seq<u8> = decoded;
        while destination < end
            invariant
                start <= destination <= end <= output@.len(),
                output@.len() == before.len(),
                base.len() == start,
                decoded == base + zeros((destination - start) as nat),
                output@ == overwritten(before, decoded),
            decreases end - destination,
        {
            output.set(destination, 0);
            destination += 1;
            proof {
                decoded = decoded.push(0);
                assert(decoded =~= base + zeros((destination - start) as nat));
                assert(output@ =~= overwritten(before, decoded));
            }
        }
        proof {
            let tail = rle_bytes(input@, source as int, (before.len() - destination) as nat).1;
            assert(base + (zeros(run as nat) + tail) =~= decoded + tail);
        }
    }
    assert(decoded + rle_bytes(input@, source as int, 0).1 =~= decoded);
    true
}

/// Join one encoded row into an already decoded one without a third buffer.
/// Zero runs only advance the destination.
pub fn merge_visibility(input: &Vec<u8>, offset: usize, output: &mut Vec<u8>) -> (complete: bool)
    ensures
        complete == rle_bytes(input@, offset as int, old(output)@.len()).0,
        final(output)@ == joined(
            old(output)@,
            rle_bytes(input@, offset as int, old(output)@.len()).1,
        ),
{
    let ghost before: Seq<u8> = output@;
    let ghost whole: (bool, Seq<u8>) = rle_bytes(input@, offset as int, output@.len());
    let ghost mut decoded: Seq<u8> = Seq::empty();
    let mut source: usize = offset;
    let mut destination: usize = 0;
    assert(output@ =~= joined(before, decoded));
    assert(decoded + whole.1 =~= whole.1);
    assert(forall|byte: u8| #[trigger] (byte | 0) == byte) by (bit_vector);
    while destination < output.len()
        invariant
            forall|byte: u8| #[trigger] (byte | 0) == byte,
            destination <= output@.len(),
            output@.len() == before.len(),
            decoded.len() == destination,
            output@ == joined(before, decoded),
            whole.0 == rle_bytes(input@, source as int, (before.len() - destination) as nat).0,
            whole.1 == decoded + rle_bytes(
                input@,
                source as int,
                (before.len() - destination) as nat,
            ).1,
            whole == rle_bytes(input@, offset as int, before.len()),
            before == old(output)@,
        decreases output@.len() - destination,
    {
        let ghost rest: (bool, Seq<u8>) = rle_bytes(
            input@,
            source as int,
            (before.len() - destination) as nat,
        );
        if source >= input.len() {
            assert(decoded + rest.1 =~= decoded);
            return false;
        }
        let value: u8 = input[source];
        source += 1;
        if value != 0 {
            let merged: u8 = output[destination] | value;
            output.set(destination, merged);
            destination += 1;
            proof {
                let tail = rle_bytes(input@, source as int, (before.len() - destination) as nat).1;
                assert(decoded + (seq![value] + tail) =~= decoded.push(value) + tail);
                decoded = decoded.push(value);
                assert(output@ =~= joined(before, decoded));
            }
            continue;
        }
        if source >= input.len() {
            assert(decoded + rest.1 =~= decoded);
            return false;
        }
        let run: u8 = input[source];
        source += 1;
        if run == 0 || run as usize > output.len() - destination {
            assert(decoded + rest.1 =~= decoded);
            return false;
        }
        destination += run as usize;
        proof {
            let tail = rle_bytes(input@, source as int, (before.len() - destination) as nat).1;
            assert(decoded + (zeros(run as nat) + tail) =~= (decoded + zeros(run as nat)) + tail);
            decoded = decoded + zeros(run as nat);
            assert(output@ =~= joined(before, decoded));
        }
    }
    assert(decoded + rle_bytes(input@, source as int, 0).1 =~= decoded);
    true
}

/// Decoding never writes past the row, and a complete row fills it.
pub proof fn rle_fills_the_row(input: Seq<u8>, source: int, room: nat)
    ensures
        rle_bytes(input, source, room).1.len() <= room,
        rle_bytes(input, source, room).0 ==> rle_bytes(input, source, room).1.len() == room,
    decreases room,
{
    if room > 0 && source < input.len() {
        if input[source] != 0 {
            rle_fills_the_row(input, source + 1, (room - 1) as nat);
        } else if source + 1 < input.len() && input[source + 1] != 0 && input[source + 1] <= room {
            rle_fills_the_row(input, source + 2, (room - input[source + 1]) as nat);
        }
    }
}

/// Merging a complete row into another is the same as decoding both and
/// joining them bit by bit: nothing that either row sees is lost.
pub proof fn merge_is_union(row: Seq<u8>, input: Seq<u8>, offset: int, index: int)
    requires
        rle_bytes(input, offset, row.len()).0,
        0 <= index < row.len(),
    ensures
        joined(row, rle_bytes(input, offset, row.len()).1)[index] == row[index] | overwritten(
            row,
            rle_bytes(input, offset, row.len()).1,
        )[index],
        joined(row, rle_bytes(input, offset, row.len()).1)[index] & row[index] == row[index],
{
    rle_fills_the_row(input, offset, row.len());
    let left = row[index];
    let right = rle_bytes(input, offset, row.len()).1[index];
    assert((left | right) & left == left) by (bit_vector);
}

/// Capacity of the mark table, in faces.
pub const MARK_TABLE_FACES: usize = 6616;

/// Capacity of the visible list, in faces.
pub const MAX_VISIBLE_FACE_COUNT: usize = 1325;

/// Capacity of the visibility row, in bytes.
pub const MAX_VISIBILITY_BYTES: usize = 160;

/// Leaf index that stands for "no portal" in a cache key.
pub const NO_PORTAL: u16 = 0xffff;

/// Bit `index` of a byte.
pub open spec fn byte_bit(byte: u8, index: int) -> bool {
    byte & (1u8 << (index as u8)) != 0
}

/// Whether a decoded row sees leaf `leaf` (leaf 0 is not in the row).
pub open spec fn row_sees(row: Seq<u8>, leaf: int) -> bool {
    byte_bit(row[leaf / 8], leaf % 8)
}

fn row_bit(row: &Vec<u8>, leaf: usize) -> (seen: bool)
    requires
        leaf / 8 < row@.len(),
    ensures
        seen == row_sees(row@, leaf as int),
{
    row[leaf / 8] & (1u8 << ((leaf % 8) as u8)) != 0
}

/// Leaves that a visibility row covers.
pub open spec fn covered_leaves(map: WorldMap) -> int {
    if map.visible_leaves > 0 {
        map.visible_leaves as int
    } else {
        0
    }
}

/// Bytes of one decoded row.
pub open spec fn row_bytes(map: WorldMap) -> nat {
    ((covered_leaves(map) + 7) / 8) as nat
}

/// Whether mark `mark` belongs to row leaf `leaf` and names face `face`.
pub open spec fn leaf_marks_face(map: WorldMap, leaf: int, mark: int, face: int) -> bool {
    let start = map.leaves@[leaf + 1].first_mark_surface as int;
    start <= mark < start + map.leaves@[leaf + 1].mark_surface_count
        && map.mark_surfaces@[mark] == face
}

/// Whether one of the first `leaves` row leaves is seen and touches `face`.
pub open spec fn face_seen(map: WorldMap, row: Seq<u8>, leaves: int, face: int) -> bool {
    exists|leaf: int, mark: int|
        0 <= leaf < leaves && row_sees(row, leaf) && #[trigger] leaf_marks_face(
            map,
            leaf,
            mark,
            face,
        )
}

/// Which faces a row sees.
pub open spec fn face_marks(map: WorldMap, row: Seq<u8>) -> Seq<bool> {
    Seq::new(map.faces@.len(), |face: int| face_seen(map, row, covered_leaves(map), face))
}

/// The marked indices below `end`, ascending.
pub open spec fn marked_below(marks: Seq<bool>, end: nat) -> Seq<int>
    decreases end,
{
    if end == 0 {
        Seq::empty()
    } else {
        let below = marked_below(marks, (end - 1) as nat);
        if marks[end - 1] {
            below.push(end - 1)
        } else {
            below
        }
    }
}

/// All marked faces, ascending and decoded: what one full scan would build.
pub open spec fn listed_faces(map: WorldMap, marks: Seq<bool>) -> Seq<VisibleFace> {
    let order = marked_below(marks, marks.len());
    Seq::new(order.len(), |i: int| map.decoded_face(order[i] as u16))
}

/// `row` at the front of an otherwise clear visibility buffer.
pub open spec fn padded(row: Seq<u8>) -> Seq<u8> {
    overwritten(zeros(MAX_VISIBILITY_BYTES as nat), row)
}

/// Decoding of a leaf's own row.
pub open spec fn leaf_row(map: WorldMap, leaf: int) -> (bool, Seq<u8>) {
    let decoded = rle_bytes(
        map.visibility@,
        map.leaves@[leaf].visibility_offset as int,
        row_bytes(map),
    );
    (decoded.0, overwritten(zeros(row_bytes(map)), decoded.1))
}

/// A leaf's row, joined with the row of the leaf behind a water portal.
pub open spec fn portal_row(map: WorldMap, leaf: int, portal: Option<u16>) -> (bool, Seq<u8>) {
    let own = leaf_row(map, leaf);
    match portal {
        None => own,
        Some(other) => if other >= map.leaves@.len() || map.leaves@[other as int].visibility_offset
            < 0 {
            (false, own.1)
        } else {
            let decoded = rle_bytes(
                map.visibility@,
                map.leaves@[other as int].visibility_offset as int,
                row_bytes(map),
            );
            (own.0 && decoded.0, joined(own.1, decoded.1))
        },
    }
}

/// Whether a row sees a leaf past the end of the leaf table.
pub open spec fn sees_missing_leaf(map: WorldMap, row: Seq<u8>) -> bool {
    exists|leaf: int|
        0 <= leaf < covered_leaves(map) && leaf + 1 >= map.leaves@.len() && #[trigger] row_sees(
            row,
            leaf,
        )
}

/// How a request for a leaf's visible faces ends.
pub enum MarkOutcome {
    /// The map has more faces than the mark table.
    TooManyFaces,
    /// The camera is in no leaf, or in the solid one.
    NoLeaf,
    /// The leaf has no visibility row, or one longer than the buffer.
    NoRow,
    /// The leaf's row does not decode.
    BrokenRow,
    /// The portal leaf's row is missing or does not decode.
    BrokenPortal,
    /// The row sees a leaf that the map does not have.
    MissingLeaf,
    /// More faces are visible than the list can hold.
    Full,
    Marked,
}

pub open spec fn mark_outcome(map: WorldMap, leaf: Option<usize>, portal: Option<u16>) -> MarkOutcome {
    if map.faces@.len() > MARK_TABLE_FACES {
        MarkOutcome::TooManyFaces
    } else if leaf is None || leaf == Some(0usize) {
        MarkOutcome::NoLeaf
    } else if map.leaves@[leaf->0 as int].visibility_offset < 0 || row_bytes(map)
        > MAX_VISIBILITY_BYTES {
        MarkOutcome::NoRow
    } else if !leaf_row(map, leaf->0 as int).0 {
        MarkOutcome::BrokenRow
    } else if !portal_row(map, leaf->0 as int, portal).0 {
        MarkOutcome::BrokenPortal
    } else if sees_missing_leaf(map, portal_row(map, leaf->0 as int, portal).1) {
        MarkOutcome::MissingLeaf
    } else if visible_list(map, leaf->0 as int, portal).len() > MAX_VISIBLE_FACE_COUNT {
        MarkOutcome::Full
    } else {
        MarkOutcome::Marked
    }
}

/// The faces that a leaf, and the leaf behind its portal, can see.
pub open spec fn visible_list(map: WorldMap, leaf: int, portal: Option<u16>) -> Seq<VisibleFace> {
    listed_faces(map, face_marks(map, portal_row(map, leaf, portal).1))
}

/// What a cached visible set was built for.
#[derive(Copy, Clone, Debug, PartialEq, Eq, Structural)]
pub struct VisibilityKey {
    pub generation: u32,
    pub leaf: usize,
    /// Leaf behind the water portal, or `NO_PORTAL`.
    pub portal: u16,
}

pub open spec fn key_portal(portal: u16) -> Option<u16> {
    if portal == NO_PORTAL {
        None
    } else {
        Some(portal)
    }
}

pub open spec fn portal_key(portal: Option<u16>) -> u16 {
    match portal {
        Some(leaf) => leaf,
        None => NO_PORTAL,
    }
}

/// The face list of the camera's leaf, kept across frames.
pub struct VisibleSet {
    /// Map generation the entries were decoded from.
    pub visible_faces_generation: Option<u32>,
    /// Visible faces, ascending.
    pub visible_faces: Vec<VisibleFace>,
    /// The decoded visibility row.
    pub visibility: Vec<u8>,
    pub visible_leaf_count: usize,
    pub cached_visibility: Option<VisibilityKey>,
    /// Plane of the water surface drawn translucent, or -1.
    pub active_water_plane: i16,
}

/// All that a visible set holds.
#[verifier::ext_equal]
pub struct VisibleSetView {
    pub generation: Option<u32>,
    pub faces: Seq<VisibleFace>,
    pub row: Seq<u8>,
    pub leaf_count: int,
    pub cached: Option<VisibilityKey>,
    pub water_plane: int,
}

impl View for VisibleSet {
    type V = VisibleSetView;

    open spec fn view(&self) -> VisibleSetView {
        VisibleSetView {
            generation: self.visible_faces_generation,
            faces: self.visible_faces@,
            row: self.visibility@,
            leaf_count: self.visible_leaf_count as int,
            cached: self.cached_visibility,
            water_plane: self.active_water_plane as int,
        }
    }
}

/// The key of a leaf together with the leaf behind a portal.
pub open spec fn leaf_key(map: WorldMap, leaf: usize, portal: Option<u16>) -> VisibilityKey {
    VisibilityKey { generation: map.generation, leaf, portal: portal_key(portal) }
}

/// What becomes of a set that is asked for a leaf, and whether its list is
/// then said to be that leaf's. A set that has cached the leaf stays as it is;
/// entries decoded from another map are dropped. A row that sees a leaf past
/// the table empties the list and leaves the cached key alone.
pub open spec fn after_mark(
    before: VisibleSetView,
    map: WorldMap,
    leaf: Option<usize>,
    portal: Option<u16>,
) -> (bool, VisibleSetView) {
    let outcome = mark_outcome(map, leaf, portal);
    if outcome is TooManyFaces {
        (false, VisibleSetView { faces: Seq::empty(), ..before })
    } else if outcome is NoLeaf {
        (
            false,
            VisibleSetView { faces: Seq::empty(), leaf_count: 0, cached: None, ..before },
        )
    } else if before.cached == Some(leaf_key(map, leaf->0, portal)) {
        (true, before)
    } else {
        let own = VisibleSetView {
            generation: Some(map.generation),
            faces: if before.generation == Some(map.generation) {
                before.faces
            } else {
                Seq::empty()
            },
            ..before
        };
        let row = padded(portal_row(map, leaf->0 as int, portal).1);
        match outcome {
            MarkOutcome::BrokenRow => (
                false,
                VisibleSetView {
                    faces: Seq::empty(),
                    row: padded(leaf_row(map, leaf->0 as int).1),
                    leaf_count: 0,
                    cached: None,
                    ..own
                },
            ),
            MarkOutcome::BrokenPortal => (false, VisibleSetView { row, cached: None, ..own }),
            MarkOutcome::MissingLeaf => (
                false,
                VisibleSetView { faces: Seq::empty(), row, ..own },
            ),
            MarkOutcome::Full => (
                false,
                VisibleSetView {
                    faces: Seq::empty(),
                    row,
                    leaf_count: 0,
                    cached: None,
                    ..own
                },
            ),
            MarkOutcome::Marked => (
                true,
                VisibleSetView {
                    faces: visible_list(map, leaf->0 as int, portal),
                    row,
                    leaf_count: covered_leaves(map),
                    cached: Some(leaf_key(map, leaf->0, portal)),
                    ..own
                },
            ),
            _ => (
                false,
                VisibleSetView { faces: Seq::empty(), leaf_count: 0, cached: None, ..own },
            ),
        }
    }
}

/// Whether `entries` are decoded faces of `map` in ascending order.
pub open spec fn ascending_decoded(map: WorldMap, entries: Seq<VisibleFace>) -> bool {
    &&& forall|i: int|
        #![trigger entries[i]]
        0 <= i < entries.len() ==> entries[i].bounds.surface_index < map.faces@.len()
            && entries[i] == map.decoded_face(entries[i].bounds.surface_index)
    &&& forall|i: int, j: int|
        #![trigger entries[i], entries[j]]
        0 <= i < j < entries.len() ==> entries[i].bounds.surface_index
            < entries[j].bounds.surface_index
}

/// Drop the entries that are no longer marked, in place.
fn compact_faces(entries: &mut Vec<VisibleFace>, map: &WorldMap, marks: &Vec<bool>)
    requires
        ascending_decoded(*map, old(entries)@),
        marks@.len() == map.faces@.len(),
    ensures
        ascending_decoded(*map, final(entries)@),
        forall|i: int|
            #![trigger final(entries)@[i]]
            0 <= i < final(entries)@.len()
                ==> marks@[final(entries)@[i].bounds.surface_index as int],
{
    let ghost before: Seq<VisibleFace> = entries@;
    let mut kept: usize = 0;
    let mut index: usize = 0;
    while index < entries.len()
        invariant
            kept <= index <= entries@.len(),
            entries@.len() == before.len(),
            marks@.len() == map.faces@.len(),
            ascending_decoded(*map, before),
            ascending_decoded(*map, entries@.take(kept as int)),
            forall|i: int| index <= i < before.len() ==> entries@[i] == before[i],
            forall|i: int|
                #![trigger entries@[i]]
                0 <= i < kept ==> marks@[entries@[i].bounds.surface_index as int],
            forall|i: int|
                #![trigger entries@[i]]
                0 <= i < kept && index < before.len() ==> entries@[i].bounds.surface_index
                    < before[index as int].bounds.surface_index,
        decreases entries@.len() - index,
    {
        let entry: VisibleFace = entries[index];
        assert(entry == before[index as int]);
        let ghost mid: Seq<VisibleFace> = entries@;
        if marks[entry.bounds.surface_index as usize] {
            entries.set(kept, entry);
            kept += 1;
            assert(entries@.take(kept as int) =~= mid.take(kept - 1).push(entry));
            assert forall|i: int, j: int|
                #![trigger entries@.take(kept as int)[i], entries@.take(kept as int)[j]]
                0 <= i < j < kept implies entries@.take(kept as int)[i].bounds.surface_index
                < entries@.take(kept as int)[j].bounds.surface_index by {
                if j == kept - 1 {
                    assert(mid[i].bounds.surface_index < entry.bounds.surface_index);
                } else {
                    assert(mid.take(kept - 1)[i].bounds.surface_index
                        < mid.take(kept - 1)[j].bounds.surface_index);
                }
            }
            assert forall|i: int|
                #![trigger entries@.take(kept as int)[i]]
                0 <= i < kept implies entries@.take(kept as int)[i].bounds.surface_index
                < map.faces@.len() && entries@.take(kept as int)[i] == map.decoded_face(
                entries@.take(kept as int)[i].bounds.surface_index,
            ) by {
                if i < kept - 1 {
                    assert(mid.take(kept - 1)[i] == mid[i]);
                }
            }
        } else {
            assert(entries@.take(kept as int) =~= mid.take(kept as int));
        }
        index += 1;
    }
    entries.truncate(kept);
}

proof fn marked_below_grows(marks: Seq<bool>, low: nat, high: nat)
    requires
        low <= high <= marks.len(),
    ensures
        marked_below(marks, low).len() <= marked_below(marks, high).len(),
        marked_below(marks, high).take(marked_below(marks, low).len() as int)
            == marked_below(marks, low),
    decreases high,
{
    if low == high {
        assert(marked_below(marks, high).take(marked_below(marks, low).len() as int)
            =~= marked_below(marks, low));
    } else {
        marked_below_grows(marks, low, (high - 1) as nat);
        assert(marked_below(marks, high).take(marked_below(marks, low).len() as int)
            =~= marked_below(marks, (high - 1) as nat).take(
            marked_below(marks, low).len() as int,
        ));
    }
}

/// A marked index stands at the position given by the marked indices below it.
proof fn marked_rank(marks: Seq<bool>, index: int)
    requires
        0 <= index < marks.len(),
        marks[index],
    ensures
        marked_below(marks, index as nat).len() < marked_below(marks, marks.len()).len(),
        marked_below(marks, marks.len())[marked_below(marks, index as nat).len() as int] == index,
{
    let below = marked_below(marks, index as nat);
    let upto = marked_below(marks, (index + 1) as nat);
    assert(upto == below.push(index));
    marked_below_grows(marks, (index + 1) as nat, marks.len());
    let all = marked_below(marks, marks.len());
    assert(all.take(upto.len() as int)[below.len() as int] == upto[below.len() as int]);
}

/// Ascending marked entries from `cursor` on are all counted past `from`.
proof fn marked_suffix(marks: Seq<bool>, entries: Seq<VisibleFace>, cursor: int, from: nat)
    requires
        0 <= cursor <= entries.len(),
        from <= marks.len(),
        cursor < entries.len() ==> from <= entries[cursor].bounds.surface_index,
        forall|i: int|
            #![trigger entries[i]]
            0 <= i < entries.len() ==> entries[i].bounds.surface_index < marks.len()
                && marks[entries[i].bounds.surface_index as int],
        forall|i: int, j: int|
            #![trigger entries[i], entries[j]]
            0 <= i < j < entries.len() ==> entries[i].bounds.surface_index
                < entries[j].bounds.surface_index,
    ensures
        marked_below(marks, marks.len()).len() >= marked_below(marks, from).len() + entries.len()
            - cursor,
    decreases entries.len() - cursor,
{
    if cursor == entries.len() {
        marked_below_grows(marks, from, marks.len());
    } else {
        let here = entries[cursor].bounds.surface_index as nat;
        marked_below_grows(marks, from, here);
        assert(marked_below(marks, here + 1) == marked_below(marks, here).push(here as int));
        marked_suffix(marks, entries, cursor + 1, here + 1);
    }
}

/// Bring the marked faces that are missing into the ascending list, decoding
/// only those. `false`, with the list untouched, when they do not all fit.
#[verifier::spinoff_prover]
#[verifier::rlimit(60)]
fn merge_new_faces(entries: &mut Vec<VisibleFace>, map: &WorldMap, marks: &Vec<bool>) -> (fits: bool)
    requires
        map.valid(),
        map.faces@.len() <= MARK_TABLE_FACES,
        marks@.len() == map.faces@.len(),
        ascending_decoded(*map, old(entries)@),
        forall|i: int|
            #![trigger old(entries)@[i]]
            0 <= i < old(entries)@.len() ==> marks@[old(entries)@[i].bounds.surface_index as int],
    ensures
        fits == (listed_faces(*map, marks@).len() <= MAX_VISIBLE_FACE_COUNT),
        fits ==> final(entries)@ == listed_faces(*map, marks@),
        !fits ==> final(entries)@ == old(entries)@,
{
    let ghost kept_entries: Seq<VisibleFace> = entries@;
    let ghost all: Seq<int> = marked_below(marks@, marks@.len());
    let kept: usize = entries.len();
    let mut new_faces: Vec<u16> = Vec::new();
    // How many kept entries precede each new face, and the other way round.
    let ghost mut kept_before: Seq<int> = Seq::empty();
    let ghost mut new_before: Seq<int> = Seq::empty();
    let mut cursor: usize = 0;
    let mut face: usize = 0;
    proof {
        marked_suffix(marks@, kept_entries, 0, 0);
    }
    while face < marks.len()
        invariant
            face <= marks@.len() <= MARK_TABLE_FACES,
            marks@.len() == map.faces@.len(),
            entries@ == kept_entries,
            kept_entries == old(entries)@,
            kept == kept_entries.len(),
            ascending_decoded(*map, kept_entries),
            forall|i: int|
                #![trigger kept_entries[i]]
                0 <= i < kept ==> marks@[kept_entries[i].bounds.surface_index as int],
            all == marked_below(marks@, marks@.len()),
            cursor <= kept,
            kept + new_faces@.len() <= all.len(),
            kept <= MAX_VISIBLE_FACE_COUNT ==> kept + new_faces@.len() <= MAX_VISIBLE_FACE_COUNT,
            kept > MAX_VISIBLE_FACE_COUNT ==> new_faces@.len() == 0,
            cursor + new_faces@.len() == marked_below(marks@, face as nat).len(),
            forall|j: int|
                #![trigger kept_entries[j]]
                0 <= j < cursor ==> kept_entries[j].bounds.surface_index < face,
            forall|j: int|
                #![trigger kept_entries[j]]
                cursor <= j < kept ==> kept_entries[j].bounds.surface_index >= face,
            kept_before.len() == new_faces@.len(),
            forall|k: int|
                #![trigger new_faces@[k]]
                0 <= k < new_faces@.len() ==> new_faces@[k] < face && marks@[new_faces@[k] as int]
                    && 0 <= kept_before[k] <= cursor && marked_below(
                    marks@,
                    new_faces@[k] as nat,
                ).len() == kept_before[k] + k,
            forall|k: int, j: int|
                #![trigger new_faces@[k], kept_entries[j]]
                0 <= k < new_faces@.len() && 0 <= j < kept ==> (j < kept_before[k]
                    <==> kept_entries[j].bounds.surface_index < new_faces@[k])
                    && kept_entries[j].bounds.surface_index != new_faces@[k],
            forall|i: int, k: int|
                #![trigger new_faces@[i], new_faces@[k]]
                0 <= i < k < new_faces@.len() ==> new_faces@[i] < new_faces@[k],
            new_before.len() == cursor,
            forall|j: int|
                #![trigger new_before[j]]
                0 <= j < cursor ==> 0 <= new_before[j] <= new_faces@.len() && marked_below(
                    marks@,
                    kept_entries[j].bounds.surface_index as nat,
                ).len() == j + new_before[j],
            forall|k: int, j: int|
                #![trigger new_faces@[k], new_before[j]]
                0 <= k < new_faces@.len() && 0 <= j < cursor ==> (k < new_before[j]
                    <==> new_faces@[k] < kept_entries[j].bounds.surface_index),
        decreases marks@.len() - face,
    {
        if marks[face] {
            assert(marked_below(marks@, (face + 1) as nat) == marked_below(
                marks@,
                face as nat,
            ).push(face as int));
            if cursor < kept && entries[cursor].bounds.surface_index as usize == face {
                assert(kept_entries[cursor as int].bounds.surface_index == face);
                proof {
                    new_before = new_before.push(new_faces@.len() as int);
                }
                cursor += 1;
            } else {
                proof {
                    if cursor < kept {
                        assert(kept_entries[cursor as int].bounds.surface_index > face);
                    }
                    marked_suffix(marks@, kept_entries, cursor as int, (face + 1) as nat);
                }
                if kept + new_faces.len() >= MAX_VISIBLE_FACE_COUNT {
                    return false;
                }
                let ghost earlier = new_faces@;
                new_faces.push(face as u16);
                proof {
                    let last = earlier.len() as int;
                    let counts = kept_before;
                    kept_before = kept_before.push(cursor as int);
                    assert(new_faces@[last] == face && kept_before[last] == cursor);
                    assert(marked_below(marks@, face as nat).len() == cursor + last);
                    assert forall|k: int| 0 <= k < last implies #[trigger] new_faces@[k]
                        == earlier[k] && kept_before[k] == counts[k] by {
                    }
                }
            }
        }
        face += 1;
    }
    proof {
        if cursor < kept {
            assert(kept_entries[cursor as int].bounds.surface_index >= face);
        }
        assert(cursor == kept);
    }
    let added: usize = new_faces.len();
    let total: usize = kept + added;
    if added == 0 {
        proof {
            assert forall|p: int| 0 <= p < kept implies kept_entries[p] == listed_faces(
                *map,
                marks@,
            )[p] by {
                assert(new_before[p] == 0);
                marked_rank(marks@, kept_entries[p].bounds.surface_index as int);
            }
            assert(entries@ =~= listed_faces(*map, marks@));
        }
        return total <= MAX_VISIBLE_FACE_COUNT;
    }
    // Open the slots the new faces need; each is written below.
    let filler: VisibleFace = decode_face(map, new_faces[0]);
    while entries.len() < total
        invariant
            kept <= entries@.len() <= total,
            kept_entries.len() == kept,
            forall|r: int| 0 <= r < kept ==> entries@[r] == kept_entries[r],
        decreases total - entries@.len(),
    {
        entries.push(filler);
    }
    // The write cursor never passes the read cursor: everything still to be
    // placed lies at or below it.
    let mut write: usize = total;
    let mut read: usize = kept;
    let mut new_index: usize = added;
    while new_index > 0
        invariant
            map.valid(),
            marks@.len() == map.faces@.len() <= MARK_TABLE_FACES,
            all == marked_below(marks@, marks@.len()),
            all.len() == total,
            entries@.len() == total,
            total == kept + added,
            added == new_faces@.len(),
            kept == kept_entries.len(),
            write == read + new_index,
            read <= kept,
            new_index <= added,
            ascending_decoded(*map, kept_entries),
            forall|i: int|
                #![trigger kept_entries[i]]
                0 <= i < kept ==> marks@[kept_entries[i].bounds.surface_index as int],
            kept_before.len() == added,
            new_before.len() == kept,
            forall|k: int|
                #![trigger new_faces@[k]]
                0 <= k < added ==> new_faces@[k] < marks@.len() && marks@[new_faces@[k] as int]
                    && 0 <= kept_before[k] <= kept && marked_below(
                    marks@,
                    new_faces@[k] as nat,
                ).len() == kept_before[k] + k,
            forall|k: int, j: int|
                #![trigger new_faces@[k], kept_entries[j]]
                0 <= k < added && 0 <= j < kept ==> (j < kept_before[k]
                    <==> kept_entries[j].bounds.surface_index < new_faces@[k])
                    && kept_entries[j].bounds.surface_index != new_faces@[k],
            forall|i: int, k: int|
                #![trigger new_faces@[i], new_faces@[k]]
                0 <= i < k < added ==> new_faces@[i] < new_faces@[k],
            forall|j: int|
                #![trigger new_before[j]]
                0 <= j < kept ==> 0 <= new_before[j] <= added && marked_below(
                    marks@,
                    kept_entries[j].bounds.surface_index as nat,
                ).len() == j + new_before[j],
            forall|k: int, j: int|
                #![trigger new_faces@[k], new_before[j]]
                0 <= k < added && 0 <= j < kept ==> (k < new_before[j]
                    <==> new_faces@[k] < kept_entries[j].bounds.surface_index),
            forall|r: int| 0 <= r < read ==> entries@[r] == kept_entries[r],
            forall|p: int|
                #![trigger entries@[p]]
                write <= p < total ==> entries@[p] == map.decoded_face(all[p] as u16),
            read < kept && new_index > 0 ==> kept_entries[read as int].bounds.surface_index
                > new_faces@[new_index - 1],
            new_index < added && read > 0 ==> kept_entries[read - 1].bounds.surface_index
                < new_faces@[new_index as int],
        decreases new_index,
    {
        let new_face: u16 = new_faces[new_index - 1];
        while read > 0 && entries[read - 1].bounds.surface_index > new_face
            invariant
                new_face == new_faces@[new_index - 1],
                0 < new_index <= added,
                marks@.len() == map.faces@.len() <= MARK_TABLE_FACES,
                all == marked_below(marks@, marks@.len()),
                all.len() == total,
                entries@.len() == total,
                total == kept + added,
                added == new_faces@.len(),
                kept == kept_entries.len(),
                write == read + new_index,
                read <= kept,
                ascending_decoded(*map, kept_entries),
                forall|i: int|
                    #![trigger kept_entries[i]]
                    0 <= i < kept ==> marks@[kept_entries[i].bounds.surface_index as int],
                new_before.len() == kept,
                forall|j: int|
                    #![trigger new_before[j]]
                    0 <= j < kept ==> 0 <= new_before[j] <= added && marked_below(
                        marks@,
                        kept_entries[j].bounds.surface_index as nat,
                    ).len() == j + new_before[j],
                forall|k: int, j: int|
                    #![trigger new_faces@[k], new_before[j]]
                    0 <= k < added && 0 <= j < kept ==> (k < new_before[j]
                        <==> new_faces@[k] < kept_entries[j].bounds.surface_index),
                forall|r: int| 0 <= r < read ==> entries@[r] == kept_entries[r],
                forall|p: int|
                    #![trigger entries@[p]]
                    write <= p < total ==> entries@[p] == map.decoded_face(all[p] as u16),
                read < kept ==> kept_entries[read as int].bounds.surface_index
                    > new_faces@[new_index - 1],
                new_index < added && read > 0 ==> kept_entries[read - 1].bounds.surface_index
                    < new_faces@[new_index as int],
            decreases read,
        {
            let moved: VisibleFace = entries[read - 1];
            proof {
                assert(moved == kept_entries[read - 1]);
                let before = new_before[read - 1];
                assert(new_faces@[new_index - 1] < kept_entries[read - 1].bounds.surface_index);
                if new_index < added {
                    assert(new_faces@[new_index as int] > kept_entries[read - 1].bounds.surface_index);
                }
                assert(before == new_index);
                marked_rank(marks@, moved.bounds.surface_index as int);
                assert(all[write - 1] == moved.bounds.surface_index);
            }
            write -= 1;
            read -= 1;
            entries.set(write, moved);
        }
        proof {
            if read > 0 {
                assert(entries@[read - 1] == kept_entries[read - 1]);
            }
            let before = kept_before[new_index - 1];
            if read < kept {
                assert(kept_entries[read as int].bounds.surface_index > new_faces@[new_index - 1]);
            }
            assert(before == read);
            marked_rank(marks@, new_face as int);
            assert(all[write - 1] == new_face);
        }
        write -= 1;
        let entry: VisibleFace = decode_face(map, new_face);
        entries.set(write, entry);
        new_index -= 1;
    }
    proof {
        assert forall|p: int| 0 <= p < total implies entries@[p] == listed_faces(*map, marks@)[p] by {
            if p < read {
                assert(new_faces@[0] > kept_entries[read - 1].bounds.surface_index);
                assert(kept_entries[p].bounds.surface_index
                    <= kept_entries[read - 1].bounds.surface_index);
                assert(new_before[p] == 0);
                marked_rank(marks@, kept_entries[p].bounds.surface_index as int);
            }
        }
        assert(entries@ =~= listed_faces(*map, marks@));
    }
    true
}

/// Whether one of the marks `start..end` names `face`.
pub open spec fn range_marks_face(map: WorldMap, start: int, end: int, face: int) -> bool {
    exists|mark: int| start <= mark < end && #[trigger] map.mark_surfaces@[mark] == face
}

proof fn face_seen_step(map: WorldMap, row: Seq<u8>, leaf: int, face: int)
    requires
        leaf >= 0,
    ensures
        face_seen(map, row, leaf + 1, face) == (face_seen(map, row, leaf, face) || (row_sees(
            row,
            leaf,
        ) && range_marks_face(
            map,
            map.leaves@[leaf + 1].first_mark_surface as int,
            map.leaves@[leaf + 1].first_mark_surface + map.leaves@[leaf + 1].mark_surface_count,
            face,
        ))),
{
    let start = map.leaves@[leaf + 1].first_mark_surface as int;
    let end = start + map.leaves@[leaf + 1].mark_surface_count;
    if row_sees(row, leaf) && range_marks_face(map, start, end, face) {
        let mark = choose|mark: int| start <= mark < end && #[trigger] map.mark_surfaces@[mark] == face;
        assert(leaf_marks_face(map, leaf, mark, face));
    }
    if face_seen(map, row, leaf, face) {
        let (l, m) = choose|l: int, m: int|
            0 <= l < leaf && row_sees(row, l) && #[trigger] leaf_marks_face(map, l, m, face);
        assert(leaf_marks_face(map, l, m, face));
    }
    if face_seen(map, row, leaf + 1, face) {
        let (l, m) = choose|l: int, m: int|
            0 <= l < leaf + 1 && row_sees(row, l) && #[trigger] leaf_marks_face(map, l, m, face);
        if l == leaf {
            assert(map.mark_surfaces@[m] == face);
        } else {
            assert(leaf_marks_face(map, l, m, face));
        }
    }
}

/// Mark every face that a leaf of the row touches; nothing where the row sees a
/// leaf that is missing.
fn mark_seen_faces(map: &WorldMap, row: &Vec<u8>, leaves: usize) -> (marked: Option<Vec<bool>>)
    requires
        map.valid(),
        leaves == covered_leaves(*map),
        row@.len() == row_bytes(*map),
    ensures
        match marked {
            Some(marks) => !sees_missing_leaf(*map, row@) && marks@ == face_marks(*map, row@),
            None => sees_missing_leaf(*map, row@),
        },
{
    let mut marks: Vec<bool> = Vec::new();
    let mut fill: usize = 0;
    while fill < map.faces.len()
        invariant
            fill <= map.faces@.len(),
            marks@.len() == fill,
            forall|f: int| 0 <= f < fill ==> !#[trigger] marks@[f],
        decreases map.faces@.len() - fill,
    {
        marks.push(false);
        fill += 1;
    }
    let mut leaf: usize = 0;
    while leaf < leaves
        invariant
            map.valid(),
            leaves == covered_leaves(*map),
            row@.len() == row_bytes(*map),
            leaf <= leaves,
            marks@.len() == map.faces@.len(),
            forall|l: int|
                #![trigger row_sees(row@, l)]
                0 <= l < leaf && row_sees(row@, l) ==> l + 1 < map.leaves@.len(),
            forall|f: int|
                0 <= f < marks@.len() ==> #[trigger] marks@[f] == face_seen(
                    *map,
                    row@,
                    leaf as int,
                    f,
                ),
        decreases leaves - leaf,
    {
        let ghost before: Seq<bool> = marks@;
        let seen: bool = row_bit(row, leaf);
        if seen {
            if leaf + 1 >= map.leaves.len() {
                return None;
            }
            let entry: Leaf = map.leaves[leaf + 1];
            let start: usize = entry.first_mark_surface as usize;
            assert(entry == map.leaves@[leaf + 1] && map.mark_surfaces.len() <= usize::MAX);
            let end: usize = start + entry.mark_surface_count as usize;
            let mut mark: usize = start;
            while mark < end
                invariant
                    map.valid(),
                    start <= mark <= end <= map.mark_surfaces@.len(),
                    marks@.len() == map.faces@.len(),
                    before.len() == marks@.len(),
                    forall|f: int|
                        0 <= f < marks@.len() ==> #[trigger] marks@[f] == (before[f]
                            || range_marks_face(*map, start as int, mark as int, f)),
                decreases end - mark,
            {
                let face: usize = map.mark_surfaces[mark] as usize;
                let ghost step: Seq<bool> = marks@;
                marks.set(face, true);
                proof {
                    assert forall|f: int| 0 <= f < marks@.len() implies #[trigger] marks@[f] == (
                    before[f] || range_marks_face(*map, start as int, mark + 1, f)) by {
                        assert(step[f] == (before[f] || range_marks_face(
                            *map,
                            start as int,
                            mark as int,
                            f,
                        )));
                        if f == face {
                            assert(map.mark_surfaces@[mark as int] == f);
                        }
                        if range_marks_face(*map, start as int, mark as int, f) {
                            let k = choose|k: int|
                                start <= k < mark && #[trigger] map.mark_surfaces@[k] == f;
                            assert(start <= k < mark + 1);
                        }
                        if range_marks_face(*map, start as int, mark + 1, f) && f != face {
                            let k = choose|k: int|
                                start <= k < mark + 1 && #[trigger] map.mark_surfaces@[k] == f;
                            assert(k != mark);
                        }
                    }
                }
                mark += 1;
            }
        }
        proof {
            assert forall|f: int| 0 <= f < marks@.len() implies #[trigger] marks@[f] == face_seen(
                *map,
                row@,
                leaf + 1,
                f,
            ) by {
                face_seen_step(*map, row@, leaf as int, f);
                assert(before[f] == face_seen(*map, row@, leaf as int, f));
            }
        }
        leaf += 1;
    }
    assert(marks@ =~= face_marks(*map, row@));
    Some(marks)
}

fn clear_row(bytes: usize) -> (row: Vec<u8>)
    ensures
        row@ == zeros(bytes as nat),
{
    let mut row: Vec<u8> = Vec::new();
    while row.len() < bytes
        invariant
            row@ == zeros(row@.len() as nat),
            row@.len() <= bytes,
        decreases bytes - row@.len(),
    {
        row.push(0);
        assert(row@ =~= zeros(row@.len() as nat));
    }
    row
}

/// Place a decoded row at the front of the visibility buffer.
fn padded_row(row: &Vec<u8>) -> (buffer: Vec<u8>)
    requires
        row@.len() <= MAX_VISIBILITY_BYTES,
    ensures
        buffer@ == padded(row@),
{
    let mut buffer: Vec<u8> = Vec::new();
    while buffer.len() < MAX_VISIBILITY_BYTES
        invariant
            buffer@.len() <= MAX_VISIBILITY_BYTES,
            row@.len() <= MAX_VISIBILITY_BYTES,
            buffer@ == padded(row@).take(buffer@.len() as int),
        decreases MAX_VISIBILITY_BYTES - buffer@.len(),
    {
        let index: usize = buffer.len();
        if index < row.len() {
            buffer.push(row[index]);
        } else {
            buffer.push(0);
        }
        assert(buffer@ =~= padded(row@).take(buffer@.len() as int));
    }
    assert(buffer@ =~= padded(row@));
    buffer
}

impl VisibleSetView {
    /// The visible set answers for `leaf` and the leaf behind `portal`.
    pub open spec fn holds(&self, map: WorldMap, leaf: int, portal: Option<u16>) -> bool {
        &&& self.generation == Some(map.generation)
        &&& self.faces == visible_list(map, leaf, portal)
        &&& self.row == padded(portal_row(map, leaf, portal).1)
        &&& self.leaf_count == covered_leaves(map)
    }

    /// What the set keeps whatever is asked of it: list entries under this
    /// map's generation are its own decoded faces in order.
    pub open spec fn sound(&self, map: WorldMap) -> bool {
        &&& self.row.len() == MAX_VISIBILITY_BYTES
        &&& self.leaf_count <= 8 * MAX_VISIBILITY_BYTES
        &&& self.generation == Some(map.generation) ==> ascending_decoded(map, self.faces)
    }

    /// A cached key of this map names exactly what the set holds.
    pub open spec fn coherent(&self, map: WorldMap) -> bool {
        &&& self.sound(map)
        &&& match self.cached {
            Some(key) => key.generation == map.generation ==> {
                &&& 0 < key.leaf < map.leaves@.len()
                &&& mark_outcome(map, Some(key.leaf), key_portal(key.portal)) is Marked
                &&& self.holds(map, key.leaf as int, key_portal(key.portal))
            },
            None => true,
        }
    }
}

/// Of a coherent set an answer is never stale: a request succeeds exactly when
/// its row and faces can be had, and the set then holds them. It stays coherent,
/// unless the row sees a leaf past the table while another leaf of the map is
/// cached.
pub proof fn coherent_sets_answer_rightly(
    before: VisibleSetView,
    map: WorldMap,
    leaf: Option<usize>,
    portal: Option<u16>,
)
    requires
        map.valid(),
        before.coherent(map),
        leaf matches Some(index) ==> index < map.leaves@.len(),
        portal != Some(NO_PORTAL),
    ensures
        ({
            let (marked, after) = after_mark(before, map, leaf, portal);
            &&& marked == (mark_outcome(map, leaf, portal) is Marked)
            &&& marked ==> after.holds(map, leaf->0 as int, portal)
            &&& marked ==> after.cached == Some(leaf_key(map, leaf->0, portal))
            &&& after.water_plane == before.water_plane
            &&& mark_outcome(map, leaf, portal) !is MissingLeaf || before.cached is None
                || before.cached->0.generation != map.generation ==> after.coherent(map)
        }),
{
    if mark_outcome(map, leaf, portal) is Marked {
        listed_faces_ascend(map, face_marks(map, portal_row(map, leaf->0 as int, portal).1));
    }
}

impl VisibleSet {
    /// What the set keeps whatever is asked of it.
    pub open spec fn sound(&self, map: WorldMap) -> bool {
        self@.sound(map)
    }

    pub fn new() -> (set: Self)
        ensures
            set.visible_faces_generation is None,
            set.visible_faces@ == Seq::<VisibleFace>::empty(),
            set.visibility@ == zeros(MAX_VISIBILITY_BYTES as nat),
            set.visible_leaf_count == 0,
            set.cached_visibility is None,
            set.active_water_plane == -1,
            forall|map: WorldMap| #[trigger] set.sound(map) && set@.coherent(map),
    {
        VisibleSet {
            visible_faces_generation: None,
            visible_faces: Vec::new(),
            visibility: clear_row(MAX_VISIBILITY_BYTES),
            visible_leaf_count: 0,
            cached_visibility: None,
            active_water_plane: -1,
        }
    }

    /// Make the set answer for the camera's leaf, joined with the leaf behind
    /// a water portal if there is one. `leaf_index` is the leaf the camera is
    /// in.
    ///
    /// Consecutive leaves see mostly the same faces, so entries already in
    /// the list are carried over and only newly visible faces are decoded;
    /// the result is the list one full ascending scan would build.
    pub fn mark_visible_faces(
        &mut self,
        map: &WorldMap,
        leaf_index: Option<usize>,
        portal_leaf: Option<u16>,
    ) -> (marked: bool)
        requires
            map.valid(),
            old(self).sound(*map),
            leaf_index matches Some(leaf) ==> leaf < map.leaves@.len(),
        ensures
            final(self).sound(*map),
            (marked, final(self)@) == after_mark(old(self)@, *map, leaf_index, portal_leaf),
            marked && old(self)@.coherent(*map) && portal_leaf != Some(NO_PORTAL) ==> lists_its_row(
                final(self)@,
                *map,
            ),
    {
        proof {
            if old(self)@.coherent(*map) && portal_leaf != Some(NO_PORTAL) {
                coherent_sets_answer_rightly(self@, *map, leaf_index, portal_leaf);
                let (marked, after) = after_mark(self@, *map, leaf_index, portal_leaf);
                if marked {
                    sets_list_what_their_rows_see(after, *map, leaf_index->0 as int, portal_leaf);
                }
            }
        }
        if map.faces.len() > MARK_TABLE_FACES {
            self.visible_faces.clear();
            return false;
        }
        let leaf: usize = match leaf_index {
            Some(leaf) => leaf,
            None => 0,
        };
        if leaf == 0 {
            self.cached_visibility = None;
            self.visible_leaf_count = 0;
            self.visible_faces.clear();
            return false;
        }
        let portal_value: u16 = match portal_leaf {
            Some(portal) => portal,
            None => NO_PORTAL,
        };
        if let Some(key) = self.cached_visibility {
            if key.generation == map.generation && key.leaf == leaf && key.portal == portal_value {
                return true;
            }
        }
        let same_map: bool = match self.visible_faces_generation {
            Some(generation) => generation == map.generation,
            None => false,
        };
        // Entries decoded from another map cannot be carried over.
        if !same_map {
            self.visible_faces.clear();
            self.visible_faces_generation = Some(map.generation);
        }
        let entry: Leaf = map.leaves[leaf];
        let visible_leaves: usize = if map.visible_leaves > 0 {
            map.visible_leaves as usize
        } else {
            0
        };
        let bytes: usize = visible_leaves / 8 + (visible_leaves % 8 + 7) / 8;
        assert(bytes == row_bytes(*map));
        if entry.visibility_offset < 0 || bytes > MAX_VISIBILITY_BYTES {
            self.cached_visibility = None;
            self.visible_leaf_count = 0;
            self.visible_faces.clear();
            return false;
        }
        let mut row: Vec<u8> = clear_row(bytes);
        let decoded: bool = decompress_visibility(
            &map.visibility,
            entry.visibility_offset as usize,
            &mut row,
        );
        if !decoded {
            self.visibility = padded_row(&row);
            self.cached_visibility = None;
            self.visible_leaf_count = 0;
            self.visible_faces.clear();
            return false;
        }
        if let Some(portal) = portal_leaf {
            if portal as usize >= map.leaves.len() {
                self.visibility = padded_row(&row);
                self.cached_visibility = None;
                return false;
            }
            let other: Leaf = map.leaves[portal as usize];
            if other.visibility_offset < 0 {
                self.visibility = padded_row(&row);
                self.cached_visibility = None;
                return false;
            }
            let merged: bool = merge_visibility(
                &map.visibility,
                other.visibility_offset as usize,
                &mut row,
            );
            if !merged {
                self.visibility = padded_row(&row);
                self.cached_visibility = None;
                return false;
            }
        }
        self.visibility = padded_row(&row);
        let marks: Vec<bool> = match mark_seen_faces(map, &row, visible_leaves) {
            Some(marks) => marks,
            None => {
                self.visible_faces.clear();
                return false;
            },
        };
        compact_faces(&mut self.visible_faces, map, &marks);
        let fits: bool = merge_new_faces(&mut self.visible_faces, map, &marks);
        if !fits {
            self.visible_faces.clear();
            self.cached_visibility = None;
            self.visible_leaf_count = 0;
            return false;
        }
        proof {
            listed_faces_ascend(*map, marks@);
        }
        self.visible_leaf_count = visible_leaves;
        self.cached_visibility = Some(
            VisibilityKey { generation: map.generation, leaf, portal: portal_value },
        );
        true
    }

    /// Whether a point in leaf `leaf_index` can be seen.
    pub fn point_visible(&self, leaf_index: usize) -> (visible: bool)
        requires
            self.visibility@.len() == MAX_VISIBILITY_BYTES,
            self.visible_leaf_count <= 8 * MAX_VISIBILITY_BYTES,
        ensures
            visible == (0 < leaf_index <= self.visible_leaf_count && row_sees(
                self.visibility@,
                leaf_index - 1,
            )),
            forall|byte: int, bit: u8|
                #![trigger self.visibility@[byte] & (1u8 << bit)]
                0 <= byte && bit < 8 && leaf_index == 8 * byte + bit + 1 ==> visible == (leaf_index
                    <= self.visible_leaf_count && self.visibility@[byte] & (1u8 << bit) != 0),
    {
        if leaf_index == 0 {
            return false;
        }
        let visible_index: usize = leaf_index - 1;
        visible_index < self.visible_leaf_count && row_bit(&self.visibility, visible_index)
    }
}

proof fn marked_below_ascends(marks: Seq<bool>, end: nat)
    requires
        end <= marks.len(),
    ensures
        forall|i: int|
            #![trigger marked_below(marks, end)[i]]
            0 <= i < marked_below(marks, end).len() ==> 0 <= marked_below(marks, end)[i] < end
                && marks[marked_below(marks, end)[i]],
        forall|i: int, j: int|
            #![trigger marked_below(marks, end)[i], marked_below(marks, end)[j]]
            0 <= i < j < marked_below(marks, end).len() ==> marked_below(marks, end)[i]
                < marked_below(marks, end)[j],
    decreases end,
{
    if end > 0 {
        marked_below_ascends(marks, (end - 1) as nat);
        let below = marked_below(marks, (end - 1) as nat);
        let here = marked_below(marks, end);
        assert forall|i: int| #![trigger here[i]] 0 <= i < here.len() implies 0 <= here[i] < end
            && marks[here[i]] by {
            if i < below.len() {
                assert(here[i] == below[i]);
            }
        }
        assert forall|i: int, j: int| #![trigger here[i], here[j]] 0 <= i < j < here.len() implies
            here[i] < here[j] by {
            assert(here[i] == below[i]);
            if j < below.len() {
                assert(here[j] == below[j]);
            }
        }
    }
}

/// The visible list names each marked face once, in ascending order, and
/// nothing else.
pub proof fn listed_faces_ascend(map: WorldMap, marks: Seq<bool>)
    requires
        marks.len() == map.faces@.len(),
        marks.len() <= MARK_TABLE_FACES,
    ensures
        ascending_decoded(map, listed_faces(map, marks)),
        forall|i: int|
            #![trigger listed_faces(map, marks)[i]]
            0 <= i < listed_faces(map, marks).len()
                ==> marks[listed_faces(map, marks)[i].bounds.surface_index as int],
        forall|f: int|
            #![trigger marks[f]]
            0 <= f < marks.len() && marks[f] ==> exists|i: int|
                0 <= i < listed_faces(map, marks).len() && (#[trigger] listed_faces(
                    map,
                    marks,
                )[i]).bounds.surface_index == f,
{
    marked_below_ascends(marks, marks.len());
    let order = marked_below(marks, marks.len());
    let listed = listed_faces(map, marks);
    assert forall|i: int, j: int|
        #![trigger listed[i], listed[j]]
        0 <= i < j < listed.len() implies listed[i].bounds.surface_index
        < listed[j].bounds.surface_index by {
        assert(order[i] < order[j]);
    }
    assert forall|i: int| #![trigger listed[i]] 0 <= i < listed.len() implies
        listed[i].bounds.surface_index < map.faces@.len() && listed[i] == map.decoded_face(
        listed[i].bounds.surface_index,
    ) && marks[listed[i].bounds.surface_index as int] by {
        assert(0 <= order[i] < marks.len());
    }
    assert forall|f: int| #![trigger marks[f]] 0 <= f < marks.len() && marks[f] implies exists|
        i: int,
    |
        0 <= i < listed.len() && (#[trigger] listed[i]).bounds.surface_index == f by {
        marked_rank(marks, f);
        let place = marked_below(marks, f as nat).len() as int;
        assert(listed[place].bounds.surface_index == f);
    }
}

/// A water surface seen from one side, with the leaf on its other side.
#[derive(Copy, Clone, Debug, PartialEq, Eq, Structural)]
pub struct WaterPortal {
    pub plane: i16,
    pub leaf: u16,
}

/// The leaves found a little in front of and behind a liquid face.
#[derive(Copy, Clone, Debug, PartialEq, Eq, Structural)]
pub struct WaterSides {
    pub positive: Option<usize>,
    pub negative: Option<usize>,
}

/// Contents of the leaf found at one side, if any leaf was.
pub open spec fn side_contents(map: WorldMap, side: Option<usize>) -> Option<Contents> {
    match side {
        Some(leaf) => if leaf < map.leaves@.len() {
            Some(map.leaves@[leaf as int].contents)
        } else {
            None
        },
        None => None,
    }
}

pub open spec fn opposite_contents(contents: Contents) -> Contents {
    match contents {
        Contents::Empty => Contents::Water,
        _ => Contents::Empty,
    }
}

/// The portal that one visible face forms for a camera in `contents`, if any.
pub open spec fn face_portal(
    map: WorldMap,
    textures: Seq<TextureInfo>,
    entry: VisibleFace,
    sides: WaterSides,
    contents: Contents,
) -> Option<WaterPortal> {
    let positive = side_contents(map, sides.positive);
    let negative = side_contents(map, sides.negative);
    let wanted = opposite_contents(contents);
    if entry.face.material >= textures.len()
        || !textures[entry.face.material as int].flags.liquid {
        None
    } else if positive == Some(contents) && negative == Some(wanted) && sides.negative->0
        <= u16::MAX {
        Some(WaterPortal { plane: entry.face.plane as i16, leaf: sides.negative->0 as u16 })
    } else if negative == Some(contents) && positive == Some(wanted) && sides.positive->0
        <= u16::MAX {
        Some(WaterPortal { plane: entry.face.plane as i16, leaf: sides.positive->0 as u16 })
    } else {
        None
    }
}

/// The portal of the first visible face, from `from` on, that forms one.
pub open spec fn first_portal(
    map: WorldMap,
    textures: Seq<TextureInfo>,
    entries: Seq<VisibleFace>,
    sides: Seq<WaterSides>,
    contents: Contents,
    from: int,
) -> Option<WaterPortal>
    decreases entries.len() - from,
{
    if from >= entries.len() {
        None
    } else {
        match face_portal(map, textures, entries[from], sides[from], contents) {
            Some(portal) => Some(portal),
            None => first_portal(map, textures, entries, sides, contents, from + 1),
        }
    }
}

/// Locate a visible boundary between water and air. `sides` holds, for each
/// visible face, the leaves at its two sample points; only the leaf on the
/// far side of the first boundary is ever joined into the frame.
pub fn water_portal(
    map: &WorldMap,
    textures: &Vec<TextureInfo>,
    entries: &Vec<VisibleFace>,
    sides: &Vec<WaterSides>,
    camera_leaf: Option<usize>,
) -> (portal: Option<WaterPortal>)
    requires
        sides@.len() == entries@.len(),
    ensures
        portal == match side_contents(*map, camera_leaf) {
            Some(contents) => if contents is Other {
                None
            } else {
                first_portal(*map, textures@, entries@, sides@, contents, 0)
            },
            None => None,
        },
        portal matches Some(found) ==> found.leaf < map.leaves@.len(),
{
    let contents: Contents = match leaf_contents(map, camera_leaf) {
        Some(contents) => contents,
        None => {
            return None;
        },
    };
    if contents == Contents::Other {
        return None;
    }
    let wanted: Contents = if contents == Contents::Empty {
        Contents::Water
    } else {
        Contents::Empty
    };
    let mut index: usize = 0;
    while index < entries.len()
        invariant
            index <= entries@.len(),
            sides@.len() == entries@.len(),
            contents !is Other,
            wanted == opposite_contents(contents),
            first_portal(*map, textures@, entries@, sides@, contents, 0) == first_portal(
                *map,
                textures@,
                entries@,
                sides@,
                contents,
                index as int,
            ),
            side_contents(*map, camera_leaf) == Some(contents),
        decreases entries@.len() - index,
    {
        let entry: VisibleFace = entries[index];
        let side: WaterSides = sides[index];
        let liquid: bool = (entry.face.material as usize) < textures.len()
            && textures[entry.face.material as usize].flags.liquid;
        if liquid {
            let positive: Option<Contents> = leaf_contents(map, side.positive);
            let negative: Option<Contents> = leaf_contents(map, side.negative);
            if let (Some(front), Some(back)) = (positive, negative) {
                if let (Some(front_leaf), Some(back_leaf)) = (side.positive, side.negative) {
                    if front == contents && back == wanted && back_leaf <= u16::MAX as usize {
                        return Some(
                            WaterPortal { plane: entry.face.plane as i16, leaf: back_leaf as u16 },
                        );
                    }
                    if back == contents && front == wanted && front_leaf <= u16::MAX as usize {
                        return Some(
                            WaterPortal { plane: entry.face.plane as i16, leaf: front_leaf as u16 },
                        );
                    }
                }
            }
        }
        index += 1;
    }
    None
}

fn leaf_contents(map: &WorldMap, leaf: Option<usize>) -> (contents: Option<Contents>)
    ensures
        contents == side_contents(*map, leaf),
{
    match leaf {
        Some(index) => if index < map.leaves.len() {
            Some(map.leaves[index].contents)
        } else {
            None
        },
        None => None,
    }
}

/// A step of eight units along a plane's normal. Axial planes use `kind` as
/// their normal; their stored components are not authoritative.
pub open spec fn plane_step(plane: CompactPlane) -> Vec3I32 {
    if plane.kind == 0 {
        Vec3I32 { x: 32768, y: 0, z: 0 }
    } else if plane.kind == 1 {
        Vec3I32 { x: 0, y: 32768, z: 0 }
    } else if plane.kind == 2 {
        Vec3I32 { x: 0, y: 0, z: 32768 }
    } else {
        Vec3I32 {
            x: (8 * plane.normal.x) as i32,
            y: (8 * plane.normal.y) as i32,
            z: (8 * plane.normal.z) as i32,
        }
    }
}

/// The sum of a face's first three corners, each axis times 1365 / 4096: a
/// point inside the face to sub-texel precision, in Q20.12.
pub open spec fn face_sample(map: WorldMap, first: int) -> Vec3I32 {
    let a = map.corner_position(first);
    let b = map.corner_position(first + 1);
    let c = map.corner_position(first + 2);
    Vec3I32 {
        x: ((a.x + b.x + c.x) * 1365) as i32,
        y: ((a.y + b.y + c.y) * 1365) as i32,
        z: ((a.z + b.z + c.z) * 1365) as i32,
    }
}

/// A point guaranteed to lie inside a convex face: any convex combination of
/// three of its corners does, unlike the midpoint of its box.
pub fn water_face_sample(map: &WorldMap, first_corner: u16) -> (point: Vec3I32)
    requires
        map.valid(),
        first_corner + 3 <= map.corners@.len(),
    ensures
        point == face_sample(*map, first_corner as int),
{
    let first: usize = first_corner as usize;
    let a: Vec3I16 = map.positions[map.corners[first] as usize];
    let b: Vec3I16 = map.positions[map.corners[first + 1] as usize];
    let c: Vec3I16 = map.positions[map.corners[first + 2] as usize];
    Vec3I32 {
        x: (a.x as i32 + b.x as i32 + c.x as i32) * 1365,
        y: (a.y as i32 + b.y as i32 + c.y as i32) * 1365,
        z: (a.z as i32 + b.z as i32 + c.z as i32) * 1365,
    }
}

/// The two points, eight units in front of and behind a liquid face, whose
/// leaves tell whether the face is a portal.
pub fn water_sample_points(map: &WorldMap, entry: VisibleFace) -> (points: (Vec3I32, Vec3I32))
    requires
        map.valid(),
        entry.face.first_corner + 3 <= map.corners@.len(),
    ensures
        ({
            let center = face_sample(*map, entry.face.first_corner as int);
            let step = plane_step(entry.plane);
            &&& points.0.x == center.x + step.x
            &&& points.0.y == center.y + step.y
            &&& points.0.z == center.z + step.z
            &&& points.1.x == center.x - step.x
            &&& points.1.y == center.y - step.y
            &&& points.1.z == center.z - step.z
        }),
{
    let center: Vec3I32 = water_face_sample(map, entry.face.first_corner);
    let plane: CompactPlane = entry.plane;
    let step: Vec3I32 = if plane.kind == 0 {
        Vec3I32 { x: 32768, y: 0, z: 0 }
    } else if plane.kind == 1 {
        Vec3I32 { x: 0, y: 32768, z: 0 }
    } else if plane.kind == 2 {
        Vec3I32 { x: 0, y: 0, z: 32768 }
    } else {
        Vec3I32 {
            x: 8 * plane.normal.x as i32,
            y: 8 * plane.normal.y as i32,
            z: 8 * plane.normal.z as i32,
        }
    };
    (
        Vec3I32 { x: center.x + step.x, y: center.y + step.y, z: center.z + step.z },
        Vec3I32 { x: center.x - step.x, y: center.y - step.y, z: center.z - step.z },
    )
}

/// What `begin_visibility` asks for next.
#[derive(Copy, Clone, Debug, PartialEq, Eq, Structural)]
pub enum VisibilityStep {
    /// The camera's own set could not be built; nothing is drawn.
    Refused,
    /// Look for a water portal in the visible list, then finish with it.
    FindPortal,
    /// Finish without a portal.
    Opaque,
}

/// Whether the cached set was built for this leaf, with or without portal.
pub open spec fn camera_matches(
    set: VisibleSetView,
    map: WorldMap,
    leaf: Option<usize>,
) -> bool {
    match (leaf, set.cached) {
        (Some(index), Some(key)) => key.generation == map.generation && key.leaf == index,
        _ => false,
    }
}

/// The first half of preparing a frame, and what becomes of the set.
pub open spec fn after_begin(
    before: VisibleSetView,
    map: WorldMap,
    leaf: Option<usize>,
    water_alpha: bool,
) -> (VisibilityStep, VisibleSetView) {
    if !water_alpha {
        (VisibilityStep::Opaque, before)
    } else if camera_matches(before, map, leaf) {
        (VisibilityStep::FindPortal, before)
    } else {
        let (marked, after) = after_mark(before, map, leaf, None);
        (
            if marked {
                VisibilityStep::FindPortal
            } else {
                VisibilityStep::Refused
            },
            after,
        )
    }
}

/// The set from which a frame is rebuilt after its union with the leaf behind
/// `portal` failed: no cached key stands for what the attempt has left.
pub open spec fn after_failed_union(
    tried: VisibleSetView,
    map: WorldMap,
    leaf: Option<usize>,
    portal: u16,
) -> VisibleSetView {
    VisibleSetView {
        cached: if mark_outcome(map, leaf, Some(portal)) is TooManyFaces {
            tried.cached
        } else {
            None
        },
        water_plane: -1,
        ..tried
    }
}

/// The second half of preparing a frame, and what becomes of the set.
pub open spec fn after_finish(
    before: VisibleSetView,
    map: WorldMap,
    leaf: Option<usize>,
    portal: Option<WaterPortal>,
) -> (bool, VisibleSetView) {
    match portal {
        Some(found) => {
            let (united, tried) = after_mark(before, map, leaf, Some(found.leaf));
            if united {
                (true, VisibleSetView { water_plane: found.plane as int, ..tried })
            } else {
                after_mark(after_failed_union(tried, map, leaf, found.leaf), map, leaf, None)
            }
        },
        None => after_mark(VisibleSetView { water_plane: -1, ..before }, map, leaf, None),
    }
}

/// Both halves. `portal` is what was found in between, if it was looked for.
pub open spec fn after_prepare(
    before: VisibleSetView,
    map: WorldMap,
    leaf: Option<usize>,
    water_alpha: bool,
    portal: Option<WaterPortal>,
) -> (bool, VisibleSetView) {
    let (step, begun) = after_begin(before, map, leaf, water_alpha);
    match step {
        VisibilityStep::Refused => (false, begun),
        VisibilityStep::Opaque => after_finish(begun, map, leaf, None),
        VisibilityStep::FindPortal => after_finish(begun, map, leaf, portal),
    }
}

impl VisibleSet {
    /// First half of preparing a frame: with translucent water asked for, the
    /// camera's own set must be there so that a portal can be looked for in it.
    pub fn begin_visibility(
        &mut self,
        map: &WorldMap,
        camera_leaf: Option<usize>,
        water_alpha: bool,
    ) -> (step: VisibilityStep)
        requires
            map.valid(),
            old(self).sound(*map),
            camera_leaf matches Some(leaf) ==> leaf < map.leaves@.len(),
        ensures
            final(self).sound(*map),
            (step, final(self)@) == after_begin(old(self)@, *map, camera_leaf, water_alpha),
    {
        if !water_alpha {
            return VisibilityStep::Opaque;
        }
        let matches: bool = match (camera_leaf, self.cached_visibility) {
            (Some(leaf), Some(key)) => key.generation == map.generation && key.leaf == leaf,
            _ => false,
        };
        if !matches && !self.mark_visible_faces(map, camera_leaf, None) {
            return VisibilityStep::Refused;
        }
        VisibilityStep::FindPortal
    }

    /// Second half: open the portal found, if any. A union that cannot be
    /// built is rebuilt opaque at once, so no frame is drawn from part of it.
    pub fn finish_visibility(
        &mut self,
        map: &WorldMap,
        camera_leaf: Option<usize>,
        portal: Option<WaterPortal>,
    ) -> (ready: bool)
        requires
            map.valid(),
            old(self).sound(*map),
            camera_leaf matches Some(leaf) ==> leaf < map.leaves@.len(),
        ensures
            final(self).sound(*map),
            (ready, final(self)@) == after_finish(old(self)@, *map, camera_leaf, portal),
    {
        if let Some(found) = portal {
            if self.mark_visible_faces(map, camera_leaf, Some(found.leaf)) {
                self.active_water_plane = found.plane;
                return true;
            }
            if map.faces.len() <= MARK_TABLE_FACES {
                self.cached_visibility = None;
            }
        }
        self.active_water_plane = -1;
        self.mark_visible_faces(map, camera_leaf, None)
    }
}

/// Asking for translucent water costs nothing where there is no portal or the
/// union behind it cannot be built: the frame is that of opaque water, whole,
/// with the list that the camera's leaf alone sees.
pub proof fn failed_unions_are_rebuilt_opaque(
    before: VisibleSetView,
    map: WorldMap,
    leaf: Option<usize>,
    portal: Option<WaterPortal>,
)
    requires
        map.valid(),
        before.coherent(map),
        leaf matches Some(index) ==> index < map.leaves@.len(),
        mark_outcome(map, leaf, None) is Marked,
        portal matches Some(found) ==> !after_mark(
            after_begin(before, map, leaf, true).1,
            map,
            leaf,
            Some(found.leaf),
        ).0,
    ensures
        ({
            let (ready, after) = after_prepare(before, map, leaf, true, portal);
            let (plain, opaque) = after_prepare(before, map, leaf, false, None);
            &&& ready && plain
            &&& after.water_plane == -1 && opaque.water_plane == -1
            &&& after.faces == opaque.faces
            &&& after.holds(map, leaf->0 as int, None)
            &&& opaque.holds(map, leaf->0 as int, None)
            &&& after.cached == opaque.cached
        }),
{
    coherent_sets_answer_rightly(before, map, leaf, None);
    let begun = after_begin(before, map, leaf, true).1;
    assert(begun.coherent(map));
    coherent_sets_answer_rightly(
        VisibleSetView { water_plane: -1, ..before },
        map,
        leaf,
        None,
    );
    match portal {
        Some(found) => {
            let tried = after_mark(begun, map, leaf, Some(found.leaf)).1;
            let rebuilt = after_failed_union(tried, map, leaf, found.leaf);
            assert(rebuilt.cached is None);
        },
        None => {
            coherent_sets_answer_rightly(
                VisibleSetView { water_plane: -1, ..begun },
                map,
                leaf,
                None,
            );
        },
    }
}

/// What a frame is prepared from is right whenever it is ready: the camera's
/// leaf alone, or joined with the leaf behind the portal whose plane is then
/// drawn translucent.
pub proof fn prepared_sets_hold_what_they_show(
    before: VisibleSetView,
    map: WorldMap,
    leaf: Option<usize>,
    water_alpha: bool,
    portal: Option<WaterPortal>,
)
    requires
        map.valid(),
        before.coherent(map),
        leaf matches Some(index) ==> index < map.leaves@.len(),
        portal matches Some(found) ==> found.leaf != NO_PORTAL,
    ensures
        ({
            let (ready, after) = after_prepare(before, map, leaf, water_alpha, portal);
            let united = water_alpha && portal is Some && mark_outcome(
                map,
                leaf,
                Some(portal->0.leaf),
            ) is Marked && after_begin(before, map, leaf, water_alpha).0 is FindPortal;
            &&& united ==> ready && after.holds(map, leaf->0 as int, Some(portal->0.leaf))
                && after.water_plane == portal->0.plane
            &&& ready && !united ==> after.holds(map, leaf->0 as int, None) && after.water_plane
                == -1
        }),
{
    coherent_sets_answer_rightly(before, map, leaf, None);
    let begun = after_begin(before, map, leaf, water_alpha).1;
    let opaque = VisibleSetView { water_plane: -1, ..begun };
    if after_begin(before, map, leaf, water_alpha).0 !is Refused {
        assert(begun.coherent(map));
        assert(opaque.coherent(map));
        coherent_sets_answer_rightly(opaque, map, leaf, None);
        if water_alpha && portal is Some {
            coherent_sets_answer_rightly(begun, map, leaf, Some(portal->0.leaf));
        }
    }
}

/// A complete visible set shows every point of a leaf that its row sees, and
/// no other.
pub proof fn point_visible_follows_the_row(set: VisibleSetView, map: WorldMap, leaf: int, portal: Option<u16>, point_leaf: int)
    requires
        set.holds(map, leaf, portal),
        row_bytes(map) <= MAX_VISIBILITY_BYTES,
        0 < point_leaf <= covered_leaves(map),
    ensures
        row_sees(set.row, point_leaf - 1) == row_sees(
            portal_row(map, leaf, portal).1,
            point_leaf - 1,
        ),
{
}

/// Leaf `8 * byte + bit` of a row is seen exactly when that bit of that byte is
/// set.
pub proof fn each_leaf_has_its_bit(row: Seq<u8>, byte: int, bit: u8)
    requires
        0 <= byte < row.len(),
        bit < 8,
    ensures
        row_sees(row, 8 * byte + bit) == (row[byte] & (1u8 << bit) != 0),
{
}

/// Any two leaves of a row can be told apart: some row sees the one and not the
/// other.
pub proof fn leaves_do_not_share_bits(length: nat, leaf: int, other: int)
    requires
        0 <= leaf < 8 * length,
        0 <= other < 8 * length,
        leaf != other,
    ensures
        exists|row: Seq<u8>|
            row.len() == length && #[trigger] row_sees(row, leaf) && !row_sees(row, other),
{
    let bit = (leaf % 8) as u8;
    let row = zeros(length).update(leaf / 8, 1u8 << bit);
    let second = (other % 8) as u8;
    assert((1u8 << bit) & (1u8 << bit) != 0) by (bit_vector)
        requires
            bit < 8,
    ;
    assert(bit != second ==> (1u8 << bit) & (1u8 << second) == 0) by (bit_vector)
        requires
            bit < 8,
            second < 8,
    ;
    assert(0u8 & (1u8 << second) == 0) by (bit_vector);
    if leaf / 8 != other / 8 {
        assert(row[other / 8] == 0);
    } else {
        assert(bit != second);
    }
    assert(row_sees(row, leaf) && !row_sees(row, other));
}

/// A row has a bit for each leaf, and less than a byte to spare.
pub proof fn rows_are_as_long_as_their_leaves(map: WorldMap)
    requires
        map.visible_leaves > 0,
    ensures
        map.visible_leaves <= 8 * row_bytes(map) < map.visible_leaves + 8,
{
}

/// Byte `byte` and bit `bit` of a row name a leaf that the row sees and one of
/// whose marks is `mark`, on `face`.
pub open spec fn bit_marks_face(
    map: WorldMap,
    row: Seq<u8>,
    byte: int,
    bit: u8,
    mark: int,
    face: int,
) -> bool {
    let leaf = map.leaves@[8 * byte + bit + 1];
    &&& 0 <= byte < row.len()
    &&& bit < 8
    &&& 8 * byte + bit < map.visible_leaves
    &&& row[byte] & (1u8 << bit) != 0
    &&& leaf.first_mark_surface <= mark < leaf.first_mark_surface + leaf.mark_surface_count
    &&& map.mark_surfaces@[mark] == face
}

/// The set lists exactly the faces of the leaves whose bits are set in its row.
pub open spec fn lists_its_row(set: VisibleSetView, map: WorldMap) -> bool {
    forall|face: int|
        0 <= face < map.faces@.len() ==> (#[trigger] lists_face(set, face) <==> exists|
            byte: int,
            bit: u8,
            mark: int,
        | #[trigger]
            bit_marks_face(map, set.row, byte, bit, mark, face))
}

/// Some entry of the list is of the face.
pub open spec fn lists_face(set: VisibleSetView, face: int) -> bool {
    exists|i: int|
        0 <= i < set.faces.len() && (#[trigger] set.faces[i]).bounds.surface_index == face
}

/// What a set holds of a leaf is what its row sees, bit by bit and leaf by leaf.
pub proof fn sets_list_what_their_rows_see(
    set: VisibleSetView,
    map: WorldMap,
    leaf: int,
    portal: Option<u16>,
)
    requires
        map.valid(),
        set.holds(map, leaf, portal),
        0 < leaf < map.leaves@.len(),
        leaf <= usize::MAX,
        mark_outcome(map, Some(leaf as usize), portal) is Marked,
    ensures
        lists_its_row(set, map),
{
    let row = portal_row(map, leaf, portal).1;
    let marks = face_marks(map, row);
    listed_faces_ascend(map, marks);
    assert(set.faces == listed_faces(map, marks));
    assert(row.len() == row_bytes(map));
    assert forall|face: int| 0 <= face < map.faces@.len() implies (#[trigger] lists_face(
        set,
        face,
    ) <==> exists|byte: int, bit: u8, mark: int| #[trigger]
        bit_marks_face(map, set.row, byte, bit, mark, face)) by {
        assert(marks[face] == face_seen(map, row, covered_leaves(map), face));
        if lists_face(set, face) {
            let i = choose|i: int|
                0 <= i < set.faces.len() && (#[trigger] set.faces[i]).bounds.surface_index == face;
            assert(marks[listed_faces(map, marks)[i].bounds.surface_index as int]);
            let (seen, mark) = choose|seen: int, mark: int|
                0 <= seen < covered_leaves(map) && row_sees(row, seen)
                    && #[trigger] leaf_marks_face(map, seen, mark, face);
            let byte = seen / 8;
            let bit = (seen % 8) as u8;
            assert(8 * byte + bit == seen);
            assert(set.row[byte] == row[byte]);
            assert(bit_marks_face(map, set.row, byte, bit, mark, face));
        }
        if exists|byte: int, bit: u8, mark: int| #[trigger]
            bit_marks_face(map, set.row, byte, bit, mark, face) {
            let (byte, bit, mark) = choose|byte: int, bit: u8, mark: int| #[trigger]
                bit_marks_face(map, set.row, byte, bit, mark, face);
            let seen = 8 * byte + bit;
            assert(byte < row.len());
            assert(set.row[byte] == row[byte]);
            assert(seen / 8 == byte && seen % 8 == bit);
            assert(row_sees(row, seen));
            assert(leaf_marks_face(map, seen, mark, face));
            assert(marks[face]);
            let i = choose|i: int|
                0 <= i < listed_faces(map, marks).len() && (#[trigger] listed_faces(
                    map,
                    marks,
                )[i]).bounds.surface_index == face;
            assert(set.faces[i].bounds.surface_index == face);
        }
    }
}

/// A row written out plainly: a byte that is not zero as it is, and a zero as a
/// run of one.
pub open spec fn plain_row(row: Seq<u8>) -> Seq<u8>
    decreases row.len(),
{
    if row.len() == 0 {
        Seq::empty()
    } else {
        (if row[0] == 0 {
            seq![0u8, 1u8]
        } else {
            seq![row[0]]
        }) + plain_row(row.skip(1))
    }
}

/// Every row can be had from a stream that spells it out, wherever the stream
/// stands.
pub proof fn plain_rows_decode_to_themselves(before: Seq<u8>, row: Seq<u8>, after: Seq<u8>)
    ensures
        rle_bytes(before + plain_row(row) + after, before.len() as int, row.len()) == (true, row),
    decreases row.len(),
{
    let input = before + plain_row(row) + after;
    let at = before.len() as int;
    if row.len() > 0 {
        let code = if row[0] == 0 {
            seq![0u8, 1u8]
        } else {
            seq![row[0]]
        };
        let rest = row.skip(1);
        plain_rows_decode_to_themselves(before + code, rest, after);
        assert(input =~= before + code + plain_row(rest) + after);
        assert(input[at] == code[0]);
        if row[0] == 0 {
            assert(input[at + 1] == 1);
            assert(zeros(1) + rest =~= row);
        } else {
            assert(seq![row[0]] + rest =~= row);
        }
    } else {
        assert(rle_bytes(input, at, 0).1 =~= row);
    }
}

/// A zero and a count stand for that many zeros.
pub proof fn runs_stand_for_zeros(before: Seq<u8>, count: u8, after: Seq<u8>, room: nat)
    requires
        0 < count <= room,
    ensures
        ({
            let input = before + seq![0u8, count] + after;
            let whole = rle_bytes(input, before.len() as int, room);
            let rest = rle_bytes(input, (before.len() + 2) as int, (room - count) as nat);
            &&& whole.0 == rest.0
            &&& whole.1.len() == count + rest.1.len()
            &&& forall|i: int| 0 <= i < count ==> #[trigger] whole.1[i] == 0
            &&& whole.1.skip(count as int) == rest.1
        }),
{
    let input = before + seq![0u8, count] + after;
    let at = before.len() as int;
    assert(input[at] == 0 && input[at + 1] == count);
    let whole = rle_bytes(input, at, room);
    let rest = rle_bytes(input, at + 2, (room - count) as nat);
    assert(whole.1.skip(count as int) =~= rest.1);
}

/// A leaf is seen from a joined row exactly when it is seen from one of the two.
pub proof fn joined_rows_see_what_either_sees(row: Seq<u8>, other: Seq<u8>, byte: int, bit: u8)
    requires
        0 <= byte < row.len(),
        byte < other.len(),
        bit < 8,
    ensures
        (joined(row, other)[byte] & (1u8 << bit) != 0) <==> (row[byte] & (1u8 << bit) != 0)
            || (other[byte] & (1u8 << bit) != 0),
{
    let a = row[byte];
    let b = other[byte];
    assert(((a | b) & (1u8 << bit) != 0) <==> (a & (1u8 << bit) != 0) || (b & (1u8 << bit) != 0))
        by (bit_vector);
}

/// A liquid face parts the camera's side of a water surface, in `near`, from
/// the other, in `far`: one of the two is water and the other empty.
pub open spec fn parts_water(
    map: WorldMap,
    textures: Seq<TextureInfo>,
    entry: VisibleFace,
    contents: Contents,
    near: Option<usize>,
    far: Option<usize>,
) -> bool {
    &&& entry.face.material < textures.len()
    &&& textures[entry.face.material as int].flags.liquid
    &&& near is Some && far is Some
    &&& near->0 < map.leaves@.len() && far->0 < map.leaves@.len()
    &&& map.leaves@[near->0 as int].contents == contents
    &&& (contents is Empty && map.leaves@[far->0 as int].contents is Water) || (contents is Water
        && map.leaves@[far->0 as int].contents is Empty)
    &&& far->0 <= 0xffff
}

/// The portal is that of the first face that parts water from air: it has the
/// face's plane, and leads to the leaf on the side that the camera is not on.
pub proof fn portals_lead_through_water(
    map: WorldMap,
    textures: Seq<TextureInfo>,
    entries: Seq<VisibleFace>,
    sides: Seq<WaterSides>,
    contents: Contents,
    from: int,
)
    requires
        contents !is Other,
        sides.len() == entries.len(),
        0 <= from <= entries.len(),
    ensures
        match first_portal(map, textures, entries, sides, contents, from) {
            Some(portal) => exists|i: int|
                #![trigger entries[i]]
                {
                    &&& from <= i < entries.len()
                    &&& portal.plane == entries[i].face.plane as i16
                    &&& (portal.leaf == sides[i].negative->0 && parts_water(
                        map,
                        textures,
                        entries[i],
                        contents,
                        sides[i].positive,
                        sides[i].negative,
                    )) || (portal.leaf == sides[i].positive->0 && parts_water(
                        map,
                        textures,
                        entries[i],
                        contents,
                        sides[i].negative,
                        sides[i].positive,
                    ))
                    &&& forall|j: int|
                        #![trigger entries[j]]
                        from <= j < i ==> !parts_water(
                            map,
                            textures,
                            entries[j],
                            contents,
                            sides[j].positive,
                            sides[j].negative,
                        ) && !parts_water(
                            map,
                            textures,
                            entries[j],
                            contents,
                            sides[j].negative,
                            sides[j].positive,
                        )
                },
            None => forall|j: int|
                #![trigger entries[j]]
                from <= j < entries.len() ==> !parts_water(
                    map,
                    textures,
                    entries[j],
                    contents,
                    sides[j].positive,
                    sides[j].negative,
                ) && !parts_water(
                    map,
                    textures,
                    entries[j],
                    contents,
                    sides[j].negative,
                    sides[j].positive,
                ),
        },
    decreases entries.len() - from,
{
    if from < entries.len() {
        portals_lead_through_water(map, textures, entries, sides, contents, from + 1);
        let found = face_portal(map, textures, entries[from], sides[from], contents);
        if found is None && first_portal(map, textures, entries, sides, contents, from + 1) is Some {
            let portal = first_portal(map, textures, entries, sides, contents, from + 1)->0;
            let i = choose|i: int|
                #![trigger entries[i]]
                {
                    &&& from + 1 <= i < entries.len()
                    &&& portal.plane == entries[i].face.plane as i16
                    &&& (portal.leaf == sides[i].negative->0 && parts_water(
                        map,
                        textures,
                        entries[i],
                        contents,
                        sides[i].positive,
                        sides[i].negative,
                    )) || (portal.leaf == sides[i].positive->0 && parts_water(
                        map,
                        textures,
                        entries[i],
                        contents,
                        sides[i].negative,
                        sides[i].positive,
                    ))
                    &&& forall|j: int|
                        #![trigger entries[j]]
                        from + 1 <= j < i ==> !parts_water(
                            map,
                            textures,
                            entries[j],
                            contents,
                            sides[j].positive,
                            sides[j].negative,
                        ) && !parts_water(
                            map,
                            textures,
                            entries[j],
                            contents,
                            sides[j].negative,
                            sides[j].positive,
                        )
                };
            assert(entries[i] == entries[i]);
        }
    }
}

/// The sample point of a face falls short of the middle of its first three
/// corners by less than one part in four thousand, on every axis.
pub proof fn samples_lie_amid_three_corners(map: WorldMap, first: int)
    ensures
        ({
            let a = map.corner_position(first);
            let b = map.corner_position(first + 1);
            let c = map.corner_position(first + 2);
            let sample = face_sample(map, first);
            &&& 4096 * (a.x + b.x + c.x) - 3 * sample.x == a.x + b.x + c.x
            &&& 4096 * (a.y + b.y + c.y) - 3 * sample.y == a.y + b.y + c.y
            &&& 4096 * (a.z + b.z + c.z) - 3 * sample.z == a.z + b.z + c.z
        }),
{
}

/// The samples beside a face are taken eight units off its plane, along its own
/// normal.
pub proof fn samples_step_off_the_plane(plane: CompactPlane)
    ensures
        plane.kind >= 3 ==> plane_step(plane).x == 8 * plane.normal.x && plane_step(plane).y == 8
            * plane.normal.y && plane_step(plane).z == 8 * plane.normal.z,
        plane.kind == 0 ==> plane_step(plane) == (Vec3I32 { x: 32768, y: 0, z: 0 }),
        plane.kind == 1 ==> plane_step(plane) == (Vec3I32 { x: 0, y: 32768, z: 0 }),
        plane.kind == 2 ==> plane_step(plane) == (Vec3I32 { x: 0, y: 0, z: 32768 }),
{
}

/// A row that sees a leaf beyond the map's leaves, among those that rows cover,
/// sees a missing leaf; one that sees none such does not.
pub proof fn rows_may_see_missing_leaves(map: WorldMap, row: Seq<u8>, leaf: int)
    requires
        0 <= leaf < map.visible_leaves,
        row_sees(row, leaf),
    ensures
        leaf + 1 >= map.leaves@.len() ==> sees_missing_leaf(map, row),
        (forall|other: int| 0 <= other < map.visible_leaves && #[trigger] row_sees(row, other)
            ==> other + 1 < map.leaves@.len()) ==> !sees_missing_leaf(map, row),
        covered_leaves(map) == map.visible_leaves,
{
}

} // verus!
