//! Transfers into video memory.

use vstd::prelude::*;

use crate::frame::VramRect;

verus! {

#[derive(Copy, Clone, Debug, PartialEq, Eq, Structural)]
pub enum VramUploadError {
    Empty,
    SizeMismatch,
}

/// One rectangle backed by a byte range in a shared upload buffer.
#[derive(Copy, Clone, Debug, PartialEq, Eq, Structural)]
pub struct VramUploadRange {
    pub rect: VramRect,
    pub start: usize,
    pub len: usize,
}

/// Four liquid tiles that are visible at once, and the old and the new slot of
/// one weapon change.
pub const MAX_DEFERRED_UPLOAD_RANGES: usize = 6;

/// Bytes that fill a rectangle of 16-bit texels.
pub open spec fn rect_bytes(rect: VramRect) -> int {
    rect.width as int * rect.height as int * 2
}

fn rect_size(rect: VramRect) -> (bytes: u64)
    ensures
        bytes == rect_bytes(rect),
{
    let width: u64 = rect.width as u64;
    let height: u64 = rect.height as u64;
    assert(width * height <= 0xffff * 0xffff) by (nonlinear_arith)
        requires
            width <= 0xffff,
            height <= 0xffff,
    ;
    width * height * 2
}

/// Whether so many bytes can be written to a rectangle at once.
pub fn check_upload(rect: VramRect, len: usize) -> (checked: Result<(), VramUploadError>)
    ensures
        checked == if len == 0 {
            Err::<(), VramUploadError>(VramUploadError::Empty)
        } else if len != rect_bytes(rect) {
            Err(VramUploadError::SizeMismatch)
        } else {
            Ok(())
        },
{
    if len == 0 {
        return Err(VramUploadError::Empty);
    }
    if len as u64 != rect_size(rect) {
        return Err(VramUploadError::SizeMismatch);
    }
    Ok(())
}

/// The range is filled exactly and lies in a buffer of `available` bytes.
pub open spec fn range_fits(range: VramUploadRange, available: int) -> bool {
    &&& range.len != 0
    &&& range.len == rect_bytes(range.rect)
    &&& range.start + range.len <= available
}

fn fits(range: VramUploadRange, available: usize) -> (fit: bool)
    ensures
        fit == range_fits(range, available as int),
{
    if range.len == 0 || range.len as u64 != rect_size(range.rect) {
        return false;
    }
    match range.start.checked_add(range.len) {
        Some(end) => end <= available,
        None => false,
    }
}

/// A transfer that waits for the end of the frame.
pub struct DeferredUpload {
    pub rect: VramRect,
    pub bytes: Vec<u8>,
}

/// What a range stages: its rectangle, and its part of the buffer.
pub open spec fn staged(range: VramUploadRange, buffer: Seq<u8>) -> (VramRect, Seq<u8>) {
    (range.rect, buffer.subrange(range.start as int, range.start + range.len))
}

pub open spec fn staged_all(ranges: Seq<VramUploadRange>, buffer: Seq<u8>) -> Seq<
    (VramRect, Seq<u8>),
> {
    Seq::new(ranges.len(), |i: int| staged(ranges[i], buffer))
}

/// The transfers of one frame, in the order they were asked for.
pub struct DeferredUploads {
    pub uploads: Vec<DeferredUpload>,
}

impl View for DeferredUploads {
    type V = Seq<(VramRect, Seq<u8>)>;

    open spec fn view(&self) -> Seq<(VramRect, Seq<u8>)> {
        Seq::new(self.uploads@.len(), |i: int| (self.uploads@[i].rect, self.uploads@[i].bytes@))
    }
}

fn copy_range(bytes: &Vec<u8>, start: usize, len: usize) -> (copy: Vec<u8>)
    requires
        start + len <= bytes@.len(),
    ensures
        copy@ == bytes@.subrange(start as int, start + len),
{
    let mut copy: Vec<u8> = Vec::new();
    let total: usize = bytes.len();
    let mut index: usize = 0;
    while index < len
        invariant
            index <= len,
            start + len <= total,
            total == bytes@.len(),
            copy@ == bytes@.subrange(start as int, start + index),
        decreases len - index,
    {
        copy.push(bytes[start + index]);
        index += 1;
        assert(copy@ =~= bytes@.subrange(start as int, start + index));
    }
    copy
}

impl DeferredUploads {
    pub open spec fn valid(&self) -> bool {
        &&& self.uploads@.len() <= MAX_DEFERRED_UPLOAD_RANGES
        &&& forall|i: int|
            #![trigger self.uploads@[i]]
            0 <= i < self.uploads@.len() ==> self.uploads@[i].bytes@.len() == rect_bytes(
                self.uploads@[i].rect,
            )
    }

    pub fn new() -> (deferred: Self)
        ensures
            deferred.valid(),
            deferred@ == Seq::<(VramRect, Seq<u8>)>::empty(),
    {
        let deferred = DeferredUploads { uploads: Vec::new() };
        assert(deferred@ =~= Seq::<(VramRect, Seq<u8>)>::empty());
        deferred
    }

    /// Stage several transfers for the end of the frame. Either all of them
    /// are staged, behind those that were staged before, or none.
    pub fn defer_vram_ranges(&mut self, bytes: &Vec<u8>, ranges: &Vec<VramUploadRange>) -> (result:
        Result<(), VramUploadError>)
        requires
            old(self).valid(),
        ensures
            final(self).valid(),
            ({
                let accepted = ranges@.len() == 0 || {
                    &&& old(self)@.len() + ranges@.len() <= MAX_DEFERRED_UPLOAD_RANGES
                    &&& forall|i: int|
                        #![trigger ranges@[i]]
                        0 <= i < ranges@.len() ==> range_fits(ranges@[i], bytes@.len() as int)
                };
                &&& accepted ==> result is Ok && final(self)@ == old(self)@ + staged_all(
                    ranges@,
                    bytes@,
                )
                &&& !accepted ==> result == Err::<(), VramUploadError>(
                    VramUploadError::SizeMismatch,
                ) && final(self)@ == old(self)@
            }),
    {
        if ranges.len() == 0 {
            assert(self@ =~= old(self)@ + staged_all(ranges@, bytes@));
            return Ok(());
        }
        let first: usize = self.uploads.len();
        if ranges.len() > MAX_DEFERRED_UPLOAD_RANGES - first {
            return Err(VramUploadError::SizeMismatch);
        }
        let mut index: usize = 0;
        while index < ranges.len()
            invariant
                index <= ranges@.len(),
                *self == *old(self),
                self.valid(),
                forall|i: int|
                    #![trigger ranges@[i]]
                    0 <= i < index ==> range_fits(ranges@[i], bytes@.len() as int),
            decreases ranges@.len() - index,
        {
            if !fits(ranges[index], bytes.len()) {
                assert(!range_fits(ranges@[index as int], bytes@.len() as int));
                return Err(VramUploadError::SizeMismatch);
            }
            index += 1;
        }
        let mut next: usize = 0;
        assert(self@ =~= old(self)@ + staged_all(ranges@, bytes@).subrange(0, 0));
        while next < ranges.len()
            invariant
                next <= ranges@.len(),
                old(self).uploads@.len() + ranges@.len() <= MAX_DEFERRED_UPLOAD_RANGES,
                self.uploads@.len() == old(self).uploads@.len() + next,
                self.valid(),
                forall|i: int|
                    #![trigger ranges@[i]]
                    0 <= i < ranges@.len() ==> range_fits(ranges@[i], bytes@.len() as int),
                self@ == old(self)@ + staged_all(ranges@, bytes@).subrange(0, next as int),
            decreases ranges@.len() - next,
        {
            let ghost before = self@;
            let range: VramUploadRange = ranges[next];
            assert(range_fits(ranges@[next as int], bytes@.len() as int));
            let copy: Vec<u8> = copy_range(bytes, range.start, range.len);
            self.uploads.push(DeferredUpload { rect: range.rect, bytes: copy });
            assert(self@ =~= before.push(staged(range, bytes@)));
            next += 1;
            assert(self@ =~= old(self)@ + staged_all(ranges@, bytes@).subrange(0, next as int));
        }
        assert(staged_all(ranges@, bytes@).subrange(0, next as int) =~= staged_all(ranges@, bytes@));
        Ok(())
    }

    /// Hand out the staged transfers, in order, and start over.
    pub fn flush_deferred_vram_uploads(&mut self) -> (uploads: Vec<DeferredUpload>)
        requires
            old(self).valid(),
        ensures
            final(self).valid(),
            final(self)@ == Seq::<(VramRect, Seq<u8>)>::empty(),
            uploads@ == old(self).uploads@,
    {
        let mut uploads: Vec<DeferredUpload> = Vec::new();
        std::mem::swap(&mut uploads, &mut self.uploads);
        assert(self@ =~= Seq::<(VramRect, Seq<u8>)>::empty());
        uploads
    }
}

/// Staging twice and then flushing hands out the first transfers first.
pub proof fn uploads_keep_their_order(
    first: Seq<VramUploadRange>,
    second: Seq<VramUploadRange>,
    left: Seq<u8>,
    right: Seq<u8>,
    index: int,
)
    requires
        0 <= index < first.len() + second.len(),
    ensures
        (staged_all(first, left) + staged_all(second, right))[index] == if index < first.len() {
            staged(first[index], left)
        } else {
            staged(second[index - first.len()], right)
        },
{
}

/// A range fits when it holds two bytes for every texel of its rectangle and ends
/// within the buffer; what is staged is just that part of the buffer.
pub proof fn ranges_hold_two_bytes_a_texel(range: VramUploadRange, buffer: Seq<u8>)
    requires
        range_fits(range, buffer.len() as int),
    ensures
        range.len == 2 * (range.rect.width * range.rect.height),
        range.len > 0,
        staged(range, buffer).0 == range.rect,
        staged(range, buffer).1.len() == range.len,
        forall|i: int|
            #![trigger staged(range, buffer).1[i]]
            0 <= i < range.len ==> staged(range, buffer).1[i] == buffer[range.start + i],
{
}

} // verus!
