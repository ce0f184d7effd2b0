//! Streams of GPU packets: a tag whose top byte counts the data words, then
//! the data words.

use vstd::prelude::*;

verus! {

/// Most packets that a captured stream may hold.
pub const MAX_STATIC_WORLD_PACKET_SLOTS: usize = 3276;

/// The texture-window command that masks nothing.
pub const WINDOW_NONE: u32 = 0xe200_0000;

/// Words between two places of a stream.
pub open spec fn words_left(from: int, end: int) -> nat {
    if from < end {
        (end - from) as nat
    } else {
        0
    }
}

/// Data words that a tag announces.
pub open spec fn tag_words(tag: u32) -> int {
    tag as int / 0x100_0000
}

/// The ordering-table slot in the low half of a staged tag.
pub open spec fn tag_slot(tag: u32) -> u16 {
    (tag as int % 0x1_0000) as u16
}

/// A tag of the same length that names `slot`.
pub open spec fn slot_tag(tag: u32, slot: u16) -> u32 {
    (tag_words(tag) * 0x100_0000 + slot) as u32
}

fn data_words(tag: u32) -> (words: usize)
    ensures
        words == tag_words(tag),
        words < 256,
{
    assert(tag >> 24u32 == tag / 0x100_0000 && tag >> 24u32 < 256) by (bit_vector);
    (tag >> 24u32) as usize
}

/// The ordering-table slots of the packets in `from..end`, if those words are
/// a whole number of packets with data, and not more than `room`.
pub open spec fn stream_slots(words: Seq<u32>, from: int, end: int, room: nat) -> Option<Seq<u16>>
    decreases words_left(from, end),
{
    if from == end {
        Some(Seq::empty())
    } else if from > end || room == 0 || tag_words(words[from]) <= 0 {
        None
    } else {
        match stream_slots(words, from + tag_words(words[from]) + 1, end, (room - 1) as nat) {
            Some(rest) => Some(seq![tag_slot(words[from])] + rest),
            None => None,
        }
    }
}

/// Capture the staged ordering-table slot of every packet. Linking overwrites
/// those low bits with an address and keeps the word count above them. `false`
/// when the words are no such stream; the slots are then empty.
pub fn capture_static_world_tags(words: &Vec<u32>, end: usize, slots: &mut Vec<u16>) -> (captured: bool)
    requires
        end <= words@.len(),
        words@.len() < usize::MAX - 256,
    ensures
        captured == stream_slots(
            words@,
            0,
            end as int,
            MAX_STATIC_WORLD_PACKET_SLOTS as nat,
        ) is Some,
        final(slots)@ == match stream_slots(
            words@,
            0,
            end as int,
            MAX_STATIC_WORLD_PACKET_SLOTS as nat,
        ) {
            Some(found) => found,
            None => Seq::empty(),
        },
{
    slots.clear();
    let ghost whole = stream_slots(words@, 0, end as int, MAX_STATIC_WORLD_PACKET_SLOTS as nat);
    let mut packet: usize = 0;
    assert(whole is Some ==> whole->0 =~= slots@ + whole->0);
    while packet < end && slots.len() < MAX_STATIC_WORLD_PACKET_SLOTS
        invariant
            end <= words@.len() < usize::MAX - 256,
            packet <= usize::MAX - 256 || packet >= end,
            slots@.len() <= MAX_STATIC_WORLD_PACKET_SLOTS,
            whole == stream_slots(words@, 0, end as int, MAX_STATIC_WORLD_PACKET_SLOTS as nat),
            ({
                let rest = stream_slots(
                    words@,
                    packet as int,
                    end as int,
                    (MAX_STATIC_WORLD_PACKET_SLOTS - slots@.len()) as nat,
                );
                &&& whole is Some == rest is Some
                &&& rest is Some ==> whole->0 == slots@ + rest->0
            }),
        decreases words_left(packet as int, end as int),
    {
        let tag: u32 = words[packet];
        let data: usize = data_words(tag);
        if data == 0 {
            slots.clear();
            return false;
        }
        let ghost before = slots@;
        assert(tag as u16 == tag % 0x1_0000) by (bit_vector);
        slots.push(tag as u16);
        packet += data + 1;
        proof {
            let rest = stream_slots(
                words@,
                packet as int,
                end as int,
                (MAX_STATIC_WORLD_PACKET_SLOTS - slots@.len()) as nat,
            );
            if rest is Some {
                assert(before + (seq![tag_slot(tag)] + rest->0) =~= slots@ + rest->0);
            }
        }
    }
    if packet != end {
        slots.clear();
        return false;
    }
    assert(slots@ + Seq::<u16>::empty() =~= slots@);
    true
}

/// What giving the packets in `from..end` their slots back comes to: whether
/// there are as many packets as slots, and the words afterwards.
pub open spec fn restored(words: Seq<u32>, from: int, end: int, slots: Seq<u16>) -> (bool, Seq<u32>)
    decreases slots.len(),
{
    if from >= end || slots.len() == 0 {
        (from == end && slots.len() == 0, words)
    } else if tag_words(words[from]) <= 0 {
        (false, words)
    } else {
        restored(
            words.update(from, slot_tag(words[from], slots[0])),
            from + tag_words(words[from]) + 1,
            end,
            slots.skip(1),
        )
    }
}

/// Restore captured slots in a stream that was linked since.
pub fn restore_static_world_tags(words: &mut Vec<u32>, end: usize, slots: &Vec<u16>) -> (whole: bool)
    requires
        end <= old(words)@.len(),
        old(words)@.len() < usize::MAX - 256,
    ensures
        whole == restored(old(words)@, 0, end as int, slots@).0,
        final(words)@ == restored(old(words)@, 0, end as int, slots@).1,
{
    let ghost outcome = restored(words@, 0, end as int, slots@);
    let mut packet: usize = 0;
    let mut index: usize = 0;
    assert(slots@.skip(0) =~= slots@);
    while packet < end && index < slots.len()
        invariant
            end <= words@.len() < usize::MAX - 256,
            packet <= usize::MAX - 256 || packet >= end,
            index <= slots@.len(),
            outcome == restored(words@, packet as int, end as int, slots@.skip(index as int)),
            outcome == restored(old(words)@, 0, end as int, slots@),
        decreases slots@.len() - index,
    {
        let tag: u32 = words[packet];
        let data: usize = data_words(tag);
        if data == 0 {
            return false;
        }
        let slot: u16 = slots[index];
        assert((tag & 0xff00_0000) | (slot as u32) == tag / 0x100_0000 * 0x100_0000 + slot)
            by (bit_vector);
        words.set(packet, (tag & 0xff00_0000) | (slot as u32));
        assert(slots@.skip(index as int).skip(1) =~= slots@.skip(index + 1));
        packet += data + 1;
        index += 1;
    }
    packet == end && index == slots.len()
}

/// `linked` differs from `staged`, in the packets of `from..end`, only below
/// the length byte of the tags.
pub open spec fn linked_from(staged: Seq<u32>, linked: Seq<u32>, from: int, end: int) -> bool
    decreases words_left(from, end),
{
    if from >= end || tag_words(staged[from]) <= 0 {
        true
    } else {
        let next = from + tag_words(staged[from]) + 1;
        &&& tag_words(linked[from]) == tag_words(staged[from])
        &&& forall|i: int|
            #![trigger linked[i]]
            from < i < next && i < linked.len() ==> linked[i] == staged[i]
        &&& linked_from(staged, linked, next, end)
    }
}

/// The tags in `from..end` hold nothing between slot and length.
pub open spec fn tags_are_staged(words: Seq<u32>, from: int, end: int) -> bool
    decreases words_left(from, end),
{
    if from >= end || tag_words(words[from]) <= 0 {
        true
    } else {
        words[from] == slot_tag(words[from], tag_slot(words[from])) && tags_are_staged(
            words,
            from + tag_words(words[from]) + 1,
            end,
        )
    }
}

/// Restoring the captured slots undoes linking: the stream is word for word
/// what it was when it was captured.
pub proof fn restore_undoes_linking(staged: Seq<u32>, linked: Seq<u32>, end: int)
    requires
        0 <= end <= staged.len(),
        staged.len() == linked.len(),
        stream_slots(staged, 0, end, MAX_STATIC_WORLD_PACKET_SLOTS as nat) is Some,
        tags_are_staged(staged, 0, end),
        linked_from(staged, linked, 0, end),
        forall|i: int| #![trigger linked[i]] end <= i < staged.len() ==> linked[i] == staged[i],
    ensures
        restored(
            linked,
            0,
            end,
            stream_slots(staged, 0, end, MAX_STATIC_WORLD_PACKET_SLOTS as nat)->0,
        ) == (true, staged),
{
    restore_undoes_linking_from(staged, linked, 0, end, MAX_STATIC_WORLD_PACKET_SLOTS as nat);
}

proof fn restore_undoes_linking_from(staged: Seq<u32>, linked: Seq<u32>, from: int, end: int, room: nat)
    requires
        0 <= from,
        end <= staged.len(),
        staged.len() == linked.len(),
        stream_slots(staged, from, end, room) is Some,
        tags_are_staged(staged, from, end),
        linked_from(staged, linked, from, end),
        forall|i: int| #![trigger linked[i]] 0 <= i < from && i < staged.len() ==> linked[i] == staged[i],
        forall|i: int| #![trigger linked[i]] end <= i < staged.len() ==> linked[i] == staged[i],
    ensures
        restored(linked, from, end, stream_slots(staged, from, end, room)->0) == (true, staged),
    decreases words_left(from, end),
{
    if from == end {
        assert(linked =~= staged);
    } else {
        let next = from + tag_words(staged[from]) + 1;
        let slots = stream_slots(staged, from, end, room)->0;
        let rest = stream_slots(staged, next, end, (room - 1) as nat)->0;
        assert(slots.skip(1) =~= rest);
        assert(slots[0] == tag_slot(staged[from]));
        let mended = linked.update(from, slot_tag(linked[from], slots[0]));
        assert(mended[from] == staged[from]);
        linked_suffix(staged, linked, mended, next, end, from);
        restore_undoes_linking_from(staged, mended, next, end, (room - 1) as nat);
    }
}

proof fn linked_suffix(staged: Seq<u32>, linked: Seq<u32>, mended: Seq<u32>, from: int, end: int, changed: int)
    requires
        linked_from(staged, linked, from, end),
        0 <= changed < from,
        mended.len() == linked.len(),
        end <= linked.len(),
        forall|i: int|
            #![trigger mended[i]]
            0 <= i < linked.len() && i != changed ==> mended[i] == linked[i],
    ensures
        linked_from(staged, mended, from, end),
    decreases words_left(from, end),
{
    if from < end && tag_words(staged[from]) > 0 {
        let next = from + tag_words(staged[from]) + 1;
        linked_suffix(staged, linked, mended, next, end, changed);
        assert(mended[from] == linked[from]);
        assert forall|i: int|
            #![trigger mended[i]]
            from < i < next && i < linked.len() implies mended[i] == staged[i] by {
            assert(mended[i] == linked[i]);
        }
    }
}

/// The packets in `from..end` each hold a window selector and a color command.
pub open spec fn windowed_stream(words: Seq<u32>, from: int, end: int) -> bool
    decreases words_left(from, end),
{
    if from >= end {
        from == end
    } else {
        tag_words(words[from]) >= 2 && windowed_stream(
            words,
            from + tag_words(words[from]) + 1,
            end,
        )
    }
}

/// The words after setting the translucency bit of every color command.
pub open spec fn made_translucent(words: Seq<u32>, from: int, end: int) -> Seq<u32>
    decreases words_left(from, end),
{
    if from >= end || tag_words(words[from]) < 2 {
        words
    } else {
        made_translucent(
            words.update(from + 2, words[from + 2] | 0x0200_0000),
            from + tag_words(words[from]) + 1,
            end,
        )
    }
}

proof fn windowed_suffix(words: Seq<u32>, changed: Seq<u32>, from: int, end: int, at: int)
    requires
        windowed_stream(words, from, end),
        0 <= at < from,
        end <= words.len(),
        forall|i: int| #![trigger changed[i]] 0 <= i < words.len() && i != at ==> changed[i] == words[i],
    ensures
        windowed_stream(changed, from, end),
    decreases words_left(from, end),
{
    if from < end {
        assert(changed[from] == words[from]);
        windowed_suffix(words, changed, from + tag_words(words[from]) + 1, end, at);
    }
}

/// Whether the packets of a range each hold a window selector and a color
/// command.
pub fn is_windowed_stream(words: &Vec<u32>, start: usize, end: usize) -> (windowed: bool)
    requires
        start <= end <= words@.len(),
    ensures
        windowed == windowed_stream(words@, start as int, end as int),
{
    let mut packet: usize = start;
    while packet < end
        invariant
            packet <= end <= words@.len(),
            windowed_stream(words@, start as int, end as int) == windowed_stream(
                words@,
                packet as int,
                end as int,
            ),
        decreases words_left(packet as int, end as int),
    {
        let data: usize = data_words(words[packet]);
        if data < 2 || data + 1 > end - packet {
            proof {
                reveal_with_fuel(windowed_stream, 2);
            }
            return false;
        }
        packet += data + 1;
    }
    true
}

/// Turn opaque textured packets into their semitransparent form in place. Each
/// packet is a tag, a window selector and then the color command, whose bit 25
/// tells the two forms apart; lengths and order stay as they are.
pub fn mark_window_packets_translucent(words: &mut Vec<u32>, start: usize, end: usize)
    requires
        start <= end <= old(words)@.len(),
        windowed_stream(old(words)@, start as int, end as int),
    ensures
        final(words)@ == made_translucent(old(words)@, start as int, end as int),
        final(words)@.len() == old(words)@.len(),
{
    let ghost outcome = made_translucent(words@, start as int, end as int);
    let mut packet: usize = start;
    while packet < end
        invariant
            packet <= end <= words@.len(),
            words@.len() == old(words)@.len(),
            windowed_stream(words@, packet as int, end as int),
            outcome == made_translucent(words@, packet as int, end as int),
            outcome == made_translucent(old(words)@, start as int, end as int),
        decreases words_left(packet as int, end as int),
    {
        let data: usize = data_words(words[packet]);
        proof {
            windowed_bounds(words@, packet + data + 1, end as int);
        }
        let ghost before = words@;
        let command: u32 = words[packet + 2];
        words.set(packet + 2, command | 0x0200_0000);
        proof {
            windowed_suffix(before, words@, packet + data + 1, end as int, packet + 2);
        }
        packet += data + 1;
    }
}

proof fn windowed_bounds(words: Seq<u32>, from: int, end: int)
    requires
        windowed_stream(words, from, end),
    ensures
        from <= end,
{
}

/// What an audit of scoped texture windows counts.
#[derive(Copy, Clone, Debug, PartialEq, Eq, Structural)]
pub struct ScopedWindowAudit {
    pub windowed: u32,
    pub restored: u32,
    pub failures: u32,
}

/// Tallies of one pass over a stream.
pub struct WindowTally {
    pub windowed: int,
    pub restored: int,
    pub failures: int,
    /// Selectors and resets that stand alone in a packet.
    pub selectors: int,
    pub resets: int,
}

pub open spec fn window_command(word: u32) -> bool {
    word as int / 0x100_0000 == 0xe2
}

/// Tally of one packet of `data` words at `packet`.
pub open spec fn packet_tally(words: Seq<u32>, packet: int, data: int) -> WindowTally {
    let none = WindowTally { windowed: 0, restored: 0, failures: 0, selectors: 0, resets: 0 };
    let selector = words[packet + 1];
    if data == 0 || !window_command(selector) {
        none
    } else if data == 1 {
        if selector == WINDOW_NONE {
            WindowTally { resets: 1, ..none }
        } else {
            WindowTally { selectors: 1, ..none }
        }
    } else if selector == WINDOW_NONE {
        WindowTally { restored: 1, ..none }
    } else if words[packet + data] == WINDOW_NONE {
        WindowTally { windowed: 1, restored: 1, ..none }
    } else {
        WindowTally { windowed: 1, failures: 1, ..none }
    }
}

/// Tally of the packets in `packet..end`; one that runs past the end fails and
/// ends the pass.
pub open spec fn stream_tally(words: Seq<u32>, packet: int, end: int) -> WindowTally
    decreases words_left(packet as int, end as int),
{
    if packet >= end {
        WindowTally { windowed: 0, restored: 0, failures: 0, selectors: 0, resets: 0 }
    } else {
        let data = tag_words(words[packet]);
        if data < 0 || data + 1 > end - packet {
            WindowTally { windowed: 0, restored: 0, failures: 1, selectors: 0, resets: 0 }
        } else {
            let here = packet_tally(words, packet, data);
            let rest = stream_tally(words, packet + data + 1, end);
            WindowTally {
                windowed: here.windowed + rest.windowed,
                restored: here.restored + rest.restored,
                failures: here.failures + rest.failures,
                selectors: here.selectors + rest.selectors,
                resets: here.resets + rest.resets,
            }
        }
    }
}

/// The audit that a tally comes to. Sequential layer selectors share one
/// terminal reset.
pub open spec fn audited(tally: WindowTally) -> (int, int, int) {
    if tally.selectors != 0 {
        if tally.selectors == tally.resets + 1 {
            (
                tally.windowed + tally.selectors,
                tally.restored + tally.selectors,
                tally.failures,
            )
        } else {
            (tally.windowed + tally.selectors, tally.restored, tally.failures + 1)
        }
    } else if tally.resets != 0 {
        (tally.windowed, tally.restored, tally.failures + 1)
    } else {
        (tally.windowed, tally.restored, tally.failures)
    }
}

/// Check that every texture window that a stream opens is closed again.
pub fn audit_scoped_window_packets(words: &Vec<u32>, start: usize, end: usize) -> (audit: ScopedWindowAudit)
    requires
        start <= end <= words@.len(),
        words@.len() <= 0x1000_0000,
    ensures
        (audit.windowed as int, audit.restored as int, audit.failures as int) == audited(
            stream_tally(words@, start as int, end as int),
        ),
{
    let ghost whole = stream_tally(words@, start as int, end as int);
    let mut windowed: u32 = 0;
    let mut closed: u32 = 0;
    let mut failures: u32 = 0;
    let mut selectors: u32 = 0;
    let mut resets: u32 = 0;
    let mut packet: usize = start;
    while packet < end
        invariant_except_break
            packet <= end,
            ({
                let rest = stream_tally(words@, packet as int, end as int);
                &&& whole.windowed == windowed + rest.windowed
                &&& whole.restored == closed + rest.restored
                &&& whole.failures == failures + rest.failures
                &&& whole.selectors == selectors + rest.selectors
                &&& whole.resets == resets + rest.resets
            }),
            windowed <= packet && closed <= packet && failures <= packet && selectors <= packet
                && resets <= packet,
        invariant
            end <= words@.len() <= 0x1000_0000,
        ensures
            whole.windowed == windowed,
            whole.restored == closed,
            whole.failures == failures,
            whole.selectors == selectors,
            whole.resets == resets,
            windowed <= 0x1000_0001 && closed <= 0x1000_0001 && failures <= 0x1000_0001
                && selectors <= 0x1000_0001 && resets <= 0x1000_0001,
        decreases words_left(packet as int, end as int),
    {
        let data: usize = data_words(words[packet]);
        if data + 1 > end - packet {
            failures += 1;
            break;
        }
        if data != 0 {
            let selector: u32 = words[packet + 1];
            assert((selector & 0xff00_0000 == 0xe200_0000) == (selector / 0x100_0000 == 0xe2))
                by (bit_vector);
            if selector & 0xff00_0000 == 0xe200_0000 {
                if data == 1 {
                    if selector == WINDOW_NONE {
                        resets += 1;
                    } else {
                        selectors += 1;
                    }
                } else if selector != WINDOW_NONE {
                    windowed += 1;
                    if words[packet + data] == WINDOW_NONE {
                        closed += 1;
                    } else {
                        failures += 1;
                    }
                } else {
                    closed += 1;
                }
            }
        }
        packet += data + 1;
    }
    if selectors != 0 {
        windowed += selectors;
        if selectors == resets + 1 {
            closed += selectors;
        } else {
            failures += 1;
        }
    } else if resets != 0 {
        failures += 1;
    }
    ScopedWindowAudit { windowed, restored: closed, failures }
}

/// A tag holds its packet's words and its slot apart.
pub proof fn tags_keep_words_and_slot_apart(tag: u32, slot: u16)
    ensures
        tag_words(slot_tag(tag, slot)) == tag_words(tag),
        tag_slot(slot_tag(tag, slot)) == slot,
        slot_tag(slot_tag(tag, slot), tag_slot(tag)) == slot_tag(tag, tag_slot(tag)),
        tag_words(tag) < 256,
        tag_words(tag) * 0x100_0000 <= tag < (tag_words(tag) + 1) * 0x100_0000,
{
}

/// The slots of a stream are those of its packets one after the other; each
/// packet is its tag and as many words as the tag tells.
pub proof fn slots_come_one_by_one(words: Seq<u32>, from: int, end: int, room: nat)
    requires
        0 <= from < end <= words.len(),
    ensures
        stream_slots(words, from, end, room) matches Some(slots) ==> {
            let next = from + words[from] as int / 0x100_0000 + 1;
            &&& room > 0 && next <= end
            &&& slots.len() >= 1 && slots[0] == words[from] % 0x1_0000
            &&& stream_slots(words, next, end, (room - 1) as nat) == Some(slots.skip(1))
        },
        stream_slots(words, end, end, room) == Some(Seq::<u16>::empty()),
{
    if let Some(slots) = stream_slots(words, from, end, room) {
        let next = from + tag_words(words[from]) + 1;
        let rest = stream_slots(words, next, end, (room - 1) as nat)->0;
        assert(slots.skip(1) =~= rest);
    }
}

/// Making a stream translucent keeps every word but the second after a tag, and
/// sets one bit of that.
pub proof fn translucency_touches_the_commands(words: Seq<u32>, from: int, end: int, index: int)
    requires
        0 <= from <= end <= words.len(),
        windowed_stream(words, from, end),
        0 <= index < words.len(),
    ensures
        made_translucent(words, from, end).len() == words.len(),
        made_translucent(words, from, end)[index] == words[index] || made_translucent(
            words,
            from,
            end,
        )[index] == words[index] | 0x0200_0000,
        index < from || index >= end ==> made_translucent(words, from, end)[index] == words[index],
        from < end ==> made_translucent(words, from, end)[from + 2] == words[from + 2] | 0x0200_0000,
        from < end && (index == from || index == from + 1) ==> made_translucent(
            words,
            from,
            end,
        )[index] == words[index],
    decreases words_left(from, end),
{
    if from < end {
        let next = from + tag_words(words[from]) + 1;
        let changed = words.update(from + 2, words[from + 2] | 0x0200_0000);
        windowed_bounds(words, next, end);
        windowed_suffix(words, changed, next, end, from + 2);
        translucency_touches_the_commands(changed, next, end, index);
        translucency_touches_the_commands(changed, next, end, from + 2);
    }
}

/// A packet counts as windowed when it begins with a window of its own, as
/// restored when it ends with none, and as a failure when it leaves its window
/// behind.
pub proof fn packets_are_tallied_by_their_windows(words: Seq<u32>, packet: int, data: int)
    requires
        data >= 2,
    ensures
        ({
            let tally = packet_tally(words, packet, data);
            let first = words[packet + 1];
            let last = words[packet + data];
            let opens = first as int / 0x100_0000 == 0xe2;
            &&& !opens ==> tally.windowed + tally.restored + tally.failures == 0
            &&& opens && first != WINDOW_NONE ==> tally.windowed == 1 && tally.restored + tally.failures
                == 1 && (tally.restored == 1 <==> last == WINDOW_NONE)
            &&& opens && first == WINDOW_NONE ==> tally.windowed == 0 && tally.restored == 1
                && tally.failures == 0
            &&& tally.selectors == 0 && tally.resets == 0
        }),
{
}

/// Lone selectors have to come in turns with lone resets, one selector more than
/// resets; then each counts as windowed and restored, and otherwise there is one
/// failure more.
pub proof fn lone_selectors_take_turns_with_resets(tally: WindowTally)
    requires
        tally.selectors >= 0,
        tally.resets >= 0,
    ensures
        ({
            let (windowed, back, failures) = audited(tally);
            let paired = tally.selectors == 0 && tally.resets == 0 || tally.selectors
                == tally.resets + 1;
            &&& windowed == tally.windowed + tally.selectors
            &&& paired ==> back == tally.restored + tally.selectors && failures == tally.failures
            &&& !paired ==> back == tally.restored && failures == tally.failures + 1
        }),
{
}

/// A stream is tallied packet by packet, and one that runs over its end is one
/// failure.
pub proof fn streams_are_tallied_by_packet(words: Seq<u32>, packet: int, end: int)
    requires
        0 <= packet < end <= words.len(),
    ensures
        ({
            let data = words[packet] as int / 0x100_0000;
            let here = packet_tally(words, packet, data);
            let rest = stream_tally(words, packet + data + 1, end);
            let all = stream_tally(words, packet, end);
            &&& packet + data + 1 > end ==> all.failures == 1 && all.windowed == 0 && all.restored
                == 0 && all.selectors == 0 && all.resets == 0
            &&& packet + data + 1 <= end ==> {
                &&& all.windowed == here.windowed + rest.windowed
                &&& all.restored == here.restored + rest.restored
                &&& all.failures == here.failures + rest.failures
                &&& all.selectors == here.selectors + rest.selectors
                &&& all.resets == here.resets + rest.resets
            }
        }),
{
}

/// A packet of one window word is a selector, or a reset where it selects
/// nothing.
pub proof fn lone_windows_select_or_reset(words: Seq<u32>, packet: int)
    ensures
        ({
            let tally = packet_tally(words, packet, 1);
            let word = words[packet + 1];
            &&& word == 0xe200_0000 ==> tally.resets == 1 && tally.selectors == 0
            &&& word / 0x100_0000 == 0xe2 && word != 0xe200_0000 ==> tally.selectors == 1
                && tally.resets == 0
            &&& word / 0x100_0000 != 0xe2 ==> tally.selectors == 0 && tally.resets == 0
            &&& tally.windowed == 0 && tally.restored == 0 && tally.failures == 0
        }),
{
}

} // verus!
