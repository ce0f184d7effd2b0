//! The resident dictionary of a map, and the cells that are placed behind it.
//!
//! The memory of a map ends with the dictionary, then one cell, then the
//! section of the disc that the cell was taken from.

use vstd::prelude::*;

verus! {

/// Why a render section could not be used.
#[derive(Copy, Clone, Debug, PartialEq, Eq, Structural)]
pub enum SectionError {
    Format,
    TooLarge,
}

#[derive(Copy, Clone, Debug, PartialEq, Eq, Structural)]
pub struct GatheredRenderSection {
    pub section: u16,
    pub leaf: u16,
    pub payload_bytes: u32,
}

/// Sizes that a map promises for its cells.
#[derive(Copy, Clone, Debug, PartialEq, Eq, Structural)]
pub struct RenderCellHeader {
    pub dictionary_bytes: usize,
    pub max_cell_bytes: usize,
    pub max_section_bytes: usize,
    pub visibility_row_bytes: usize,
    pub packet_pool_budget_bytes: u32,
    pub max_packet_pool_bytes: u32,
}

/// Sizes of the records of the format.
#[derive(Copy, Clone, Debug, PartialEq, Eq, Structural)]
pub struct RecordSizes {
    pub cell: usize,
    pub command: usize,
    pub packet: usize,
}

/// Where things lie once a section is in memory.
#[derive(Copy, Clone, Debug, PartialEq, Eq, Structural)]
pub struct CellWindow {
    pub section: usize,
    pub cell_offset: usize,
    pub source_offset: usize,
    pub section_bytes: usize,
    pub cache_start: usize,
    pub total_bytes: usize,
    /// The section has to be read; another one is in memory.
    pub read: bool,
}

/// A face of the dictionary, as far as it is checked.
#[derive(Copy, Clone, Debug, PartialEq, Eq, Structural)]
pub struct DictionaryFace {
    pub plane: u16,
    pub material: u16,
    pub quad_count: u16,
}

/// An object of the dictionary: a run of faces.
#[derive(Copy, Clone, Debug, PartialEq, Eq, Structural)]
pub struct DictionaryObject {
    pub first_face: u16,
    pub face_count: u8,
}

/// A command of a cell: an object, and which of its faces have templates.
#[derive(Copy, Clone, Debug, PartialEq, Eq, Structural)]
pub struct CellCommand {
    pub object: u16,
    pub template_faces: u32,
}

/// Every face names a plane and a material of the map.
pub open spec fn faces_in_range(
    faces: Seq<DictionaryFace>,
    plane_count: int,
    material_count: int,
) -> bool {
    forall|i: int|
        #![trigger faces[i]]
        0 <= i < faces.len() ==> faces[i].plane < plane_count && faces[i].material < material_count
}

pub fn validate_dictionary(
    faces: &Vec<DictionaryFace>,
    plane_count: usize,
    material_count: usize,
) -> (checked: Result<(), SectionError>)
    ensures
        checked == if faces_in_range(faces@, plane_count as int, material_count as int) {
            Ok::<(), SectionError>(())
        } else {
            Err(SectionError::Format)
        },
{
    let mut index: usize = 0;
    while index < faces.len()
        invariant
            index <= faces@.len(),
            forall|i: int|
                #![trigger faces@[i]]
                0 <= i < index ==> faces@[i].plane < plane_count && faces@[i].material
                    < material_count,
        decreases faces@.len() - index,
    {
        let face: DictionaryFace = faces[index];
        if face.plane as usize >= plane_count || face.material as usize >= material_count {
            assert(!(faces@[index as int].plane < plane_count && faces@[index as int].material
                < material_count));
            return Err(SectionError::Format);
        }
        index += 1;
    }
    Ok(())
}

/// A dictionary by itself has no cells; its faces are checked once, when the
/// map is loaded.
pub fn load_render_dictionary(
    cell_count: usize,
    visibility_row_bytes: usize,
    faces: &Vec<DictionaryFace>,
    plane_count: usize,
    material_count: usize,
) -> (checked: Result<(), SectionError>)
    ensures
        checked == if cell_count == 0 && visibility_row_bytes == 0 && faces_in_range(
            faces@,
            plane_count as int,
            material_count as int,
        ) {
            Ok::<(), SectionError>(())
        } else {
            Err(SectionError::Format)
        },
{
    if cell_count != 0 || visibility_row_bytes != 0 {
        return Err(SectionError::Format);
    }
    validate_dictionary(faces, plane_count, material_count)
}

/// Find the place of a cell. `location` is the cell's section and its offset
/// there; `range` is the section's offset on the disc and its length.
pub fn cell_window(
    header: RenderCellHeader,
    location: Option<(usize, usize)>,
    range: Option<(usize, usize)>,
    cached_section: Option<usize>,
) -> (window: Result<CellWindow, SectionError>)
    ensures
        match (location, range) {
            (Some((section, cell_offset)), Some((source_offset, section_bytes))) => {
                let cache_start = header.dictionary_bytes + header.max_cell_bytes;
                if cache_start + section_bytes > usize::MAX || section_bytes
                    > header.max_section_bytes {
                    window == Err::<CellWindow, SectionError>(SectionError::TooLarge)
                } else {
                    window == Ok::<CellWindow, SectionError>(
                        CellWindow {
                            section,
                            cell_offset,
                            source_offset,
                            section_bytes,
                            cache_start: cache_start as usize,
                            total_bytes: (cache_start + section_bytes) as usize,
                            read: cached_section != Some(section),
                        },
                    )
                }
            },
            _ => window == Err::<CellWindow, SectionError>(SectionError::Format),
        },
{
    let (section, cell_offset) = match location {
        Some(found) => found,
        None => {
            return Err(SectionError::Format);
        },
    };
    let (source_offset, section_bytes) = match range {
        Some(found) => found,
        None => {
            return Err(SectionError::Format);
        },
    };
    let cache_start: usize = match header.dictionary_bytes.checked_add(header.max_cell_bytes) {
        Some(sum) => sum,
        None => {
            return Err(SectionError::TooLarge);
        },
    };
    let total_bytes: usize = match cache_start.checked_add(section_bytes) {
        Some(sum) => sum,
        None => {
            return Err(SectionError::TooLarge);
        },
    };
    if section_bytes > header.max_section_bytes {
        return Err(SectionError::TooLarge);
    }
    let read: bool = match cached_section {
        Some(cached) => cached != section,
        None => true,
    };
    Ok(
        CellWindow {
            section,
            cell_offset,
            source_offset,
            section_bytes,
            cache_start,
            total_bytes,
            read,
        },
    )
}

/// A 16-bit number, low byte first.
pub open spec fn le_u16(bytes: Seq<u8>, at: int) -> int {
    bytes[at] + bytes[at + 1] * 256
}

/// Bytes of a cell with so many commands: its record, two rows of visibility,
/// and the commands.
pub open spec fn cell_size(header: RenderCellHeader, sizes: RecordSizes, commands: int) -> int {
    sizes.cell + header.visibility_row_bytes * 2 + commands * sizes.command
}

/// The size of a cell, unless no size holds it.
fn cell_bytes_of(header: RenderCellHeader, sizes: RecordSizes, commands: usize) -> (bytes: Option<
    usize,
>)
    ensures
        match bytes {
            Some(size) => size == cell_size(header, sizes, commands as int),
            None => cell_size(header, sizes, commands as int) > usize::MAX,
        },
{
    assert(commands * sizes.command >= 0) by (nonlinear_arith)
        requires
            commands >= 0,
            sizes.command >= 0,
    ;
    let rows: usize = match header.visibility_row_bytes.checked_mul(2) {
        Some(rows) => rows,
        None => {
            return None;
        },
    };
    let least: usize = match sizes.cell.checked_add(rows) {
        Some(least) => least,
        None => {
            return None;
        },
    };
    let stream: usize = match commands.checked_mul(sizes.command) {
        Some(stream) => stream,
        None => {
            return None;
        },
    };
    least.checked_add(stream)
}

/// The cell in a section is the one that was looked for, and lies in bounds.
pub open spec fn cell_matches(
    tail: Seq<u8>,
    window: CellWindow,
    header: RenderCellHeader,
    sizes: RecordSizes,
    leaf: int,
) -> bool {
    let start = window.cache_start + window.cell_offset;
    let bytes = cell_size(header, sizes, le_u16(tail, start + 2));
    &&& start + sizes.cell <= tail.len()
    &&& le_u16(tail, start) == leaf
    &&& bytes <= header.max_cell_bytes
    &&& window.cell_offset + bytes <= window.section_bytes
}

/// The memory with a run of bytes copied to an earlier place.
pub open spec fn with_copied(tail: Seq<u8>, from: int, to: int, count: int) -> Seq<u8> {
    Seq::new(
        tail.len(),
        |i: int|
            if to <= i < to + count {
                tail[from + i - to]
            } else {
                tail[i]
            },
    )
}

fn copy_back(tail: &mut Vec<u8>, from: usize, to: usize, count: usize)
    requires
        to <= from,
        from + count <= old(tail)@.len(),
    ensures
        final(tail)@ == with_copied(old(tail)@, from as int, to as int, count as int),
{
    let total: usize = tail.len();
    let mut index: usize = 0;
    while index < count
        invariant
            index <= count,
            to <= from,
            from + count <= total,
            total == tail@.len(),
            total == old(tail)@.len(),
            forall|i: int|
                #![trigger tail@[i]]
                0 <= i < total ==> tail@[i] == if to <= i < to + index {
                    old(tail)@[from + i - to]
                } else {
                    old(tail)@[i]
                },
        decreases count - index,
    {
        let byte: u8 = tail[from + index];
        tail.set(to + index, byte);
        index += 1;
    }
    assert(tail@ =~= with_copied(old(tail)@, from as int, to as int, count as int));
}

/// Place a cell of the section in memory right behind the dictionary. The
/// size of dictionary and cell together.
pub fn gather_cell(
    tail: &mut Vec<u8>,
    window: CellWindow,
    header: RenderCellHeader,
    sizes: RecordSizes,
    leaf: usize,
) -> (payload: Result<usize, SectionError>)
    requires
        sizes.cell >= 4,
        window.cache_start == header.dictionary_bytes + header.max_cell_bytes,
        window.total_bytes == window.cache_start + window.section_bytes,
        old(tail)@.len() == window.total_bytes,
    ensures
        ({
            let start = window.cache_start + window.cell_offset;
            let bytes = cell_size(header, sizes, le_u16(old(tail)@, start + 2));
            if cell_matches(old(tail)@, window, header, sizes, leaf as int) {
                &&& payload is Ok
                &&& payload->Ok_0 == header.dictionary_bytes + bytes
                &&& final(tail)@ == with_copied(
                    old(tail)@,
                    start,
                    header.dictionary_bytes as int,
                    bytes,
                )
            } else {
                &&& payload == Err::<usize, SectionError>(SectionError::Format)
                &&& final(tail)@ == old(tail)@
            }
        }),
{
    let total: usize = tail.len();
    let start: usize = match window.cache_start.checked_add(window.cell_offset) {
        Some(sum) => sum,
        None => {
            return Err(SectionError::Format);
        },
    };
    if start > total || sizes.cell > total - start {
        return Err(SectionError::Format);
    }
    let encoded_leaf: usize = tail[start] as usize + tail[start + 1] as usize * 256;
    let commands: usize = tail[start + 2] as usize + tail[start + 3] as usize * 256;
    assert(commands * sizes.command >= 0) by (nonlinear_arith)
        requires
            commands >= 0,
            sizes.command >= 0,
    ;
    let cell_bytes: usize = match cell_bytes_of(header, sizes, commands) {
        Some(bytes) => bytes,
        None => {
            return Err(SectionError::Format);
        },
    };
    if encoded_leaf != leaf || cell_bytes > header.max_cell_bytes || window.cell_offset
        > window.section_bytes || cell_bytes > window.section_bytes - window.cell_offset {
        return Err(SectionError::Format);
    }
    copy_back(tail, start, header.dictionary_bytes, cell_bytes);
    Ok(header.dictionary_bytes + cell_bytes)
}

/// Placing a cell changes neither the dictionary nor the section it was taken
/// from, so another cell of the section can be placed later.
pub proof fn gathering_keeps_the_rest(
    tail: Seq<u8>,
    window: CellWindow,
    header: RenderCellHeader,
    sizes: RecordSizes,
    leaf: int,
)
    requires
        window.cache_start == header.dictionary_bytes + header.max_cell_bytes,
        window.total_bytes == window.cache_start + window.section_bytes,
        tail.len() == window.total_bytes,
        cell_matches(tail, window, header, sizes, leaf),
    ensures
        ({
            let start = window.cache_start + window.cell_offset;
            let bytes = cell_size(header, sizes, le_u16(tail, start + 2));
            let after = with_copied(tail, start, header.dictionary_bytes as int, bytes);
            &&& after.subrange(0, header.dictionary_bytes as int) == tail.subrange(
                0,
                header.dictionary_bytes as int,
            )
            &&& after.subrange(window.cache_start as int, window.total_bytes as int)
                == tail.subrange(window.cache_start as int, window.total_bytes as int)
            &&& after.subrange(header.dictionary_bytes as int, header.dictionary_bytes + bytes)
                == tail.subrange(start, start + bytes)
        }),
{
    let start = window.cache_start + window.cell_offset;
    let bytes = cell_size(header, sizes, le_u16(tail, start + 2));
    let after = with_copied(tail, start, header.dictionary_bytes as int, bytes);
    assert(after.subrange(0, header.dictionary_bytes as int) =~= tail.subrange(
        0,
        header.dictionary_bytes as int,
    ));
    assert(after.subrange(window.cache_start as int, window.total_bytes as int) =~= tail.subrange(
        window.cache_start as int,
        window.total_bytes as int,
    ));
    let commands = le_u16(tail, start + 2);
    assert(commands * sizes.command >= 0) by (nonlinear_arith)
        requires
            commands >= 0,
            sizes.command >= 0,
    ;
    assert(after.subrange(header.dictionary_bytes as int, header.dictionary_bytes + bytes)
        =~= tail.subrange(start, start + bytes));
}

/// A face of an object has a template.
pub open spec fn templated(command: CellCommand, local_face: int) -> bool {
    command.template_faces & (1u32 << (local_face as u32)) != 0
}

/// Packet bytes after the first `count` faces of an object, from `before` on.
/// A face that does not exist is an error, and so is a sum that no size holds.
pub open spec fn object_pool(
    before: Result<int, SectionError>,
    command: CellCommand,
    object: DictionaryObject,
    faces: Seq<DictionaryFace>,
    packet: int,
    count: nat,
) -> Result<int, SectionError>
    decreases count,
{
    if count == 0 {
        before
    } else {
        match object_pool(before, command, object, faces, packet, (count - 1) as nat) {
            Err(error) => Err(error),
            Ok(sum) => {
                let face = object.first_face + count - 1;
                if !templated(command, count - 1) {
                    Ok(sum)
                } else if face >= faces.len() {
                    Err(SectionError::Format)
                } else if sum + faces[face].quad_count * packet > usize::MAX {
                    Err(SectionError::TooLarge)
                } else {
                    Ok(sum + faces[face].quad_count * packet)
                }
            },
        }
    }
}

/// Packet bytes of the first `count` commands of a cell.
pub open spec fn commands_pool(
    commands: Seq<CellCommand>,
    objects: Seq<DictionaryObject>,
    faces: Seq<DictionaryFace>,
    packet: int,
    count: nat,
) -> Result<int, SectionError>
    decreases count,
{
    if count == 0 {
        Ok(0)
    } else {
        let before = commands_pool(commands, objects, faces, packet, (count - 1) as nat);
        let command = commands[count - 1];
        match before {
            Err(error) => Err(error),
            Ok(_) => if command.object >= objects.len() {
                Err(SectionError::Format)
            } else {
                let object = objects[command.object as int];
                object_pool(before, command, object, faces, packet, object.face_count as nat)
            },
        }
    }
}

proof fn object_error_stays(
    before: Result<int, SectionError>,
    command: CellCommand,
    object: DictionaryObject,
    faces: Seq<DictionaryFace>,
    packet: int,
    low: nat,
    high: nat,
)
    requires
        low <= high,
        object_pool(before, command, object, faces, packet, low) is Err,
    ensures
        object_pool(before, command, object, faces, packet, high) == object_pool(
            before,
            command,
            object,
            faces,
            packet,
            low,
        ),
    decreases high,
{
    if low < high {
        object_error_stays(before, command, object, faces, packet, low, (high - 1) as nat);
    }
}

proof fn commands_error_stays(
    commands: Seq<CellCommand>,
    objects: Seq<DictionaryObject>,
    faces: Seq<DictionaryFace>,
    packet: int,
    low: nat,
    high: nat,
)
    requires
        low <= high,
        commands_pool(commands, objects, faces, packet, low) is Err,
    ensures
        commands_pool(commands, objects, faces, packet, high) == commands_pool(
            commands,
            objects,
            faces,
            packet,
            low,
        ),
    decreases high,
{
    if low < high {
        commands_error_stays(commands, objects, faces, packet, low, (high - 1) as nat);
    }
}

fn add_object(
    sum: usize,
    command: CellCommand,
    object: DictionaryObject,
    faces: &Vec<DictionaryFace>,
    packet: usize,
) -> (result: Result<usize, SectionError>)
    requires
        object.face_count <= 32,
    ensures
        match object_pool(
            Ok(sum as int),
            command,
            object,
            faces@,
            packet as int,
            object.face_count as nat,
        ) {
            Ok(total) => result is Ok && result->Ok_0 == total,
            Err(error) => result is Err && result->Err_0 == error,
        },
{
    let mut total: usize = sum;
    let mut local: u8 = 0;
    while local < object.face_count
        invariant
            local <= object.face_count <= 32,
            object_pool(Ok(sum as int), command, object, faces@, packet as int, local as nat)
                == Ok::<int, SectionError>(total as int),
        decreases object.face_count - local,
    {
        if command.template_faces & (1u32 << (local as u32)) != 0 {
            let index: usize = object.first_face as usize + local as usize;
            proof {
                assert(templated(command, local as int));
            }
            if index >= faces.len() {
                proof {
                    object_error_stays(
                        Ok(sum as int),
                        command,
                        object,
                        faces@,
                        packet as int,
                        (local + 1) as nat,
                        object.face_count as nat,
                    );
                }
                return Err(SectionError::Format);
            }
            let quads: usize = faces[index].quad_count as usize;
            assert(quads * packet >= 0) by (nonlinear_arith)
                requires
                    quads >= 0,
                    packet >= 0,
            ;
            let grown: Option<usize> = match quads.checked_mul(packet) {
                Some(bytes) => total.checked_add(bytes),
                None => None,
            };
            total = match grown {
                Some(next) => next,
                None => {
                    proof {
                        object_error_stays(
                            Ok(sum as int),
                            command,
                            object,
                            faces@,
                            packet as int,
                            (local + 1) as nat,
                            object.face_count as nat,
                        );
                    }
                    return Err(SectionError::TooLarge);
                },
            };
        }
        local += 1;
    }
    Ok(total)
}

/// Memory for the packets of a cell's templates. It must keep to what the map
/// promises and to what was set aside.
pub fn packet_pool_bytes(
    header: RenderCellHeader,
    sizes: RecordSizes,
    commands: &Vec<CellCommand>,
    objects: &Vec<DictionaryObject>,
    faces: &Vec<DictionaryFace>,
) -> (pool: Result<u32, SectionError>)
    requires
        forall|i: int|
            #![trigger objects@[i]]
            0 <= i < objects@.len() ==> objects@[i].face_count <= 32,
    ensures
        match commands_pool(commands@, objects@, faces@, sizes.packet as int, commands@.len()) {
            Ok(total) => if total > header.packet_pool_budget_bytes || total
                > header.max_packet_pool_bytes {
                pool == Err::<u32, SectionError>(SectionError::TooLarge)
            } else {
                pool is Ok && pool->Ok_0 == total
            },
            Err(error) => pool == Err::<u32, SectionError>(error),
        },
{
    let mut total: usize = 0;
    let mut index: usize = 0;
    while index < commands.len()
        invariant
            index <= commands@.len(),
            forall|i: int|
                #![trigger objects@[i]]
                0 <= i < objects@.len() ==> objects@[i].face_count <= 32,
            commands_pool(commands@, objects@, faces@, sizes.packet as int, index as nat) == Ok::<
                int,
                SectionError,
            >(total as int),
        decreases commands@.len() - index,
    {
        let command: CellCommand = commands[index];
        if command.object as usize >= objects.len() {
            proof {
                commands_error_stays(
                    commands@,
                    objects@,
                    faces@,
                    sizes.packet as int,
                    (index + 1) as nat,
                    commands@.len(),
                );
            }
            return Err(SectionError::Format);
        }
        let object: DictionaryObject = objects[command.object as usize];
        total = match add_object(total, command, object, faces, sizes.packet) {
            Ok(next) => next,
            Err(error) => {
                proof {
                    commands_error_stays(
                        commands@,
                        objects@,
                        faces@,
                        sizes.packet as int,
                        (index + 1) as nat,
                        commands@.len(),
                    );
                }
                return Err(error);
            },
        };
        index += 1;
    }
    if total > header.packet_pool_budget_bytes as usize || total
        > header.max_packet_pool_bytes as usize {
        return Err(SectionError::TooLarge);
    }
    Ok(total as u32)
}

/// A section, a leaf and a size as they are reported, in 16 and 32 bits.
pub open spec fn reported(section: int, leaf: int, payload_bytes: int) -> GatheredRenderSection {
    GatheredRenderSection {
        section: (section % 65536) as u16,
        leaf: (leaf % 65536) as u16,
        payload_bytes: (payload_bytes % 0x1_0000_0000) as u32,
    }
}

/// A cell has been placed and decoded: `decoded_leaf` is the leaf that it says
/// it belongs to. The packet memory it needs, and what to report of it.
pub fn load_render_cell(
    window: CellWindow,
    header: RenderCellHeader,
    sizes: RecordSizes,
    leaf: usize,
    payload_bytes: usize,
    decoded_leaf: u16,
    commands: &Vec<CellCommand>,
    objects: &Vec<DictionaryObject>,
    faces: &Vec<DictionaryFace>,
) -> (result: Result<(GatheredRenderSection, u32), SectionError>)
    requires
        forall|i: int|
            #![trigger objects@[i]]
            0 <= i < objects@.len() ==> objects@[i].face_count <= 32,
    ensures
        ({
            let pool = commands_pool(
                commands@,
                objects@,
                faces@,
                sizes.packet as int,
                commands@.len(),
            );
            if decoded_leaf != leaf {
                result == Err::<(GatheredRenderSection, u32), SectionError>(SectionError::Format)
            } else {
                match pool {
                    Err(error) => result == Err::<(GatheredRenderSection, u32), SectionError>(
                        error,
                    ),
                    Ok(total) => if total > header.packet_pool_budget_bytes || total
                        > header.max_packet_pool_bytes {
                        result == Err::<(GatheredRenderSection, u32), SectionError>(
                            SectionError::TooLarge,
                        )
                    } else {
                        &&& result is Ok
                        &&& result->Ok_0.0 == reported(
                            window.section as int,
                            leaf as int,
                            payload_bytes as int,
                        )
                        &&& result->Ok_0.1 == total
                    },
                }
            }
        }),
{
    if decoded_leaf as usize != leaf {
        return Err(SectionError::Format);
    }
    match packet_pool_bytes(header, sizes, commands, objects, faces) {
        Err(error) => Err(error),
        Ok(pool) => Ok(
            (
                GatheredRenderSection {
                    section: (window.section % 65536) as u16,
                    leaf: (leaf % 65536) as u16,
                    payload_bytes: (payload_bytes as u64 % 0x1_0000_0000) as u32,
                },
                pool,
            ),
        ),
    }
}

/// A number of two bytes has its low byte first.
pub proof fn low_bytes_come_first(bytes: Seq<u8>, at: int)
    ensures
        le_u16(bytes, at) % 256 == bytes[at],
        le_u16(bytes, at) / 256 == bytes[at + 1],
        0 <= le_u16(bytes, at) < 65536,
{
}

/// A cell is its record, two rows of visibility and its commands.
pub proof fn cells_grow_by_their_commands(
    header: RenderCellHeader,
    sizes: RecordSizes,
    commands: int,
)
    ensures
        cell_size(header, sizes, 0) == sizes.cell + 2 * header.visibility_row_bytes,
        cell_size(header, sizes, commands + 1) - cell_size(header, sizes, commands)
            == sizes.command,
{
    let size = sizes.command as int;
    assert((commands + 1) * size == commands * size + size) by (nonlinear_arith);
    assert(0 * size == 0) by (nonlinear_arith);
}

/// A face adds the packets of its quads to the pool where the command has a
/// template for it, and nothing where it has none.
pub proof fn templates_add_their_packets(
    before: int,
    command: CellCommand,
    object: DictionaryObject,
    faces: Seq<DictionaryFace>,
    packet: int,
    count: nat,
    sum: int,
)
    requires
        object_pool(Ok(before), command, object, faces, packet, count) == Ok::<int, SectionError>(
            sum,
        ),
        object.first_face + count < faces.len(),
        sum + faces[object.first_face + count].quad_count * packet <= usize::MAX,
        count < 32,
    ensures
        ({
            let after = object_pool(Ok(before), command, object, faces, packet, count + 1);
            let face = faces[object.first_face + count];
            &&& after is Ok
            &&& command.template_faces & (1u32 << (count as u32)) != 0 ==> after->Ok_0 == sum
                + face.quad_count * packet
            &&& command.template_faces & (1u32 << (count as u32)) == 0 ==> after->Ok_0 == sum
        }),
        object_pool(Ok(before), command, object, faces, packet, 0) == Ok::<int, SectionError>(
            before,
        ),
{
}

/// What is reported of a section is its own number, leaf and size, where they
/// fit.
pub proof fn sections_are_reported_as_they_are(section: int, leaf: int, payload_bytes: int)
    requires
        0 <= section < 65536,
        0 <= leaf < 65536,
        0 <= payload_bytes < 0x1_0000_0000,
    ensures
        reported(section, leaf, payload_bytes).section == section,
        reported(section, leaf, payload_bytes).leaf == leaf,
        reported(section, leaf, payload_bytes).payload_bytes == payload_bytes,
{
}

/// The commands of a cell add up their pools, each by its own object; one that
/// names no object is an error.
pub proof fn commands_add_up_their_pools(
    commands: Seq<CellCommand>,
    objects: Seq<DictionaryObject>,
    faces: Seq<DictionaryFace>,
    packet: int,
    count: nat,
)
    requires
        count < commands.len(),
    ensures
        ({
            let before = commands_pool(commands, objects, faces, packet, count);
            let after = commands_pool(commands, objects, faces, packet, count + 1);
            let command = commands[count as int];
            &&& before is Err ==> after == before
            &&& before is Ok && command.object >= objects.len() ==> after == Err::<
                int,
                SectionError,
            >(SectionError::Format)
            &&& before is Ok && command.object < objects.len() ==> after == object_pool(
                before,
                command,
                objects[command.object as int],
                faces,
                packet,
                objects[command.object as int].face_count as nat,
            )
        }),
        commands_pool(commands, objects, faces, packet, 0) == Ok::<int, SectionError>(0),
{
}

/// Each face has its own bit of a command.
pub proof fn templates_are_told_by_their_bits(command: CellCommand, face: u32)
    requires
        face < 32,
    ensures
        templated(command, face as int) <==> (command.template_faces >> face) & 1 == 1,
{
    let word = command.template_faces;
    assert(word & (1u32 << face) != 0 <==> (word >> face) & 1 == 1) by (bit_vector)
        requires
            face < 32,
    ;
}

} // verus!
