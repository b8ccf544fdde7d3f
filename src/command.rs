use vstd::prelude::*;
use crate::device::{Capabilities, QueueFamily};
use crate::pipeline::{DescriptorSet, Kernel, Pipeline};
use crate::resource::{image_byte_len, BufferId, ImageId, Resources, Rgba8};

verus! {

/// One recorded GPU operation. A dispatch holds what it read from its
/// pipeline and descriptor set when it was recorded.
#[derive(Clone, Copy, Debug, PartialEq, Eq, Structural)]
pub enum Command {
    CopyBuffer { src: BufferId, dst: BufferId },
    ClearImage { image: ImageId, color: Rgba8 },
    CopyImageToBuffer { image: ImageId, buffer: BufferId },
    Dispatch { kernel: Kernel, target: BufferId, invocations: u64 },
}

#[derive(Clone, Copy, Debug, PartialEq, Eq, Structural)]
pub enum RecordError {
    /// An id names no resource of the arena.
    UnknownResource,
    /// The queue family cannot run this kind of operation.
    UnsupportedByQueue,
    /// A resource lacks the usage intent the operation needs, or belongs to
    /// another queue family.
    Usage,
    /// Source and destination sizes do not fit.
    SizeMismatch,
    /// The descriptor set does not satisfy the pipeline's layout.
    BindingMismatch,
}

/// Copies run on transfer queues, and on graphics or compute ones.
pub open spec fn runs_transfers(c: Capabilities) -> bool {
    c.transfer || c.graphics || c.compute
}

/// Clears run on graphics or compute queues.
pub open spec fn runs_clears(c: Capabilities) -> bool {
    c.graphics || c.compute
}

pub open spec fn copy_buffer_error(res: Resources, queue: QueueFamily, src: BufferId, dst: BufferId) -> Option<RecordError> {
    if !res.has_buffer(src) || !res.has_buffer(dst) {
        Some(RecordError::UnknownResource)
    } else if !runs_transfers(queue.capabilities) {
        Some(RecordError::UnsupportedByQueue)
    } else if res.length(src) != res.length(dst) {
        Some(RecordError::SizeMismatch)
    } else if !res.buffer(src).usage.transfer_src || !res.buffer(dst).usage.transfer_dst {
        Some(RecordError::Usage)
    } else {
        None
    }
}

/// The image is free for `queue`: it has no family affinity, or that of `queue`.
pub open spec fn image_on_queue(res: Resources, image: ImageId, queue: QueueFamily) -> bool {
    match res.image(image).queue_family {
        Some(f) => f == queue.id,
        None => true,
    }
}

pub open spec fn clear_image_error(res: Resources, queue: QueueFamily, image: ImageId) -> Option<RecordError> {
    if !res.has_image(image) {
        Some(RecordError::UnknownResource)
    } else if !runs_clears(queue.capabilities) {
        Some(RecordError::UnsupportedByQueue)
    } else if !image_on_queue(res, image, queue) {
        Some(RecordError::Usage)
    } else {
        None
    }
}

pub open spec fn image_size(res: Resources, image: ImageId) -> int {
    image_byte_len(res.image(image).width, res.image(image).height, res.image(image).format)
}

pub open spec fn copy_image_error(res: Resources, queue: QueueFamily, image: ImageId, buffer: BufferId) -> Option<RecordError> {
    if !res.has_image(image) || !res.has_buffer(buffer) {
        Some(RecordError::UnknownResource)
    } else if !runs_transfers(queue.capabilities) {
        Some(RecordError::UnsupportedByQueue)
    } else if res.length(buffer) < image_size(res, image) {
        Some(RecordError::SizeMismatch)
    } else if !image_on_queue(res, image, queue) || !res.buffer(buffer).usage.transfer_dst {
        Some(RecordError::Usage)
    } else {
        None
    }
}

/// Every buffer of the set exists and was created for storage use.
pub open spec fn set_buffers_usable(res: Resources, buffers: Seq<BufferId>) -> bool {
    forall|i: int|
        0 <= i < buffers.len() ==> res.has_buffer(#[trigger] buffers[i]) && res.buffer(
            buffers[i],
        ).usage.storage
}

pub open spec fn dispatch_error(res: Resources, queue: QueueFamily, pipeline: Pipeline, set: DescriptorSet) -> Option<RecordError> {
    if !queue.capabilities.compute {
        Some(RecordError::UnsupportedByQueue)
    } else if set.slots@ != pipeline.slots@ || set.buffers@.len() != pipeline.slots@.len()
        || pipeline.slots@.len() == 0 || !set_buffers_usable(res, set.buffers@) {
        Some(RecordError::BindingMismatch)
    } else {
        None
    }
}

/// How many invocations along x a dispatch of `groups` work groups runs: none
/// when a group count is zero.
pub open spec fn invocation_count(local_size_x: u32, gx: u32, gy: u32, gz: u32) -> int {
    if gx == 0 || gy == 0 || gz == 0 {
        0
    } else {
        gx as int * local_size_x as int
    }
}

/// The operation that a dispatch of `pipeline` with `set` records: it keeps
/// the buffer at the set's first slot, not the set.
pub open spec fn dispatch_command(pipeline: Pipeline, set: DescriptorSet, gx: u32, gy: u32, gz: u32) -> Command {
    Command::Dispatch {
        kernel: pipeline.kernel,
        target: set.buffers@[0],
        invocations: invocation_count(pipeline.local_size_x, gx, gy, gz) as u64,
    }
}

/// Records operations, in call order, for one queue family.
pub struct CommandRecorder {
    queue: QueueFamily,
    ops: Vec<Command>,
}

/// A finalized, immutable list of operations for one queue family.
pub struct CommandList {
    queue: QueueFamily,
    ops: Vec<Command>,
}

impl View for CommandRecorder {
    type V = Seq<Command>;

    closed spec fn view(&self) -> Seq<Command> {
        self.ops@
    }
}

impl View for CommandList {
    type V = Seq<Command>;

    closed spec fn view(&self) -> Seq<Command> {
        self.ops@
    }
}

impl CommandRecorder {
    pub closed spec fn spec_queue(self) -> QueueFamily {
        self.queue
    }

    /// Starts an empty recording for `queue`.
    pub fn begin(queue: QueueFamily) -> (r: CommandRecorder)
        ensures
            r@ == Seq::<Command>::empty(),
            r.spec_queue() == queue,
    {
        CommandRecorder { queue, ops: Vec::new() }
    }

    pub fn queue(&self) -> (r: QueueFamily)
        ensures
            r == self.spec_queue(),
    {
        self.queue
    }

    /// Appends a copy of `src` into `dst`.
    pub fn copy_buffer(&mut self, res: &Resources, src: BufferId, dst: BufferId) -> (r: Result<(), RecordError>)
        ensures
            final(self).spec_queue() == old(self).spec_queue(),
            match copy_buffer_error(*res, old(self).spec_queue(), src, dst) {
                None => r is Ok && final(self)@ == old(self)@.push(Command::CopyBuffer { src, dst }),
                Some(e) => r == Err::<(), RecordError>(e) && final(self)@ == old(self)@,
            },
    {
        if src.index >= res.buffers.len() || dst.index >= res.buffers.len() {
            return Err(RecordError::UnknownResource);
        }
        let c = self.queue.capabilities;
        if !(c.transfer || c.graphics || c.compute) {
            return Err(RecordError::UnsupportedByQueue);
        }
        let s = &res.buffers[src.index];
        let d = &res.buffers[dst.index];
        if s.data.len() != d.data.len() {
            return Err(RecordError::SizeMismatch);
        }
        if !s.usage.transfer_src || !d.usage.transfer_dst {
            return Err(RecordError::Usage);
        }
        self.ops.push(Command::CopyBuffer { src, dst });
        Ok(())
    }

    fn image_free_for_queue(&self, res: &Resources, image: ImageId) -> (r: bool)
        requires
            res.has_image(image),
        ensures
            r == image_on_queue(*res, image, self.spec_queue()),
    {
        match res.images[image.index].queue_family {
            Some(f) => f == self.queue.id,
            None => true,
        }
    }

    /// Appends a clear of every pixel of `image` to `color`.
    pub fn clear_image(&mut self, res: &Resources, image: ImageId, color: Rgba8) -> (r: Result<(), RecordError>)
        ensures
            final(self).spec_queue() == old(self).spec_queue(),
            match clear_image_error(*res, old(self).spec_queue(), image) {
                None => r is Ok && final(self)@ == old(self)@.push(Command::ClearImage { image, color }),
                Some(e) => r == Err::<(), RecordError>(e) && final(self)@ == old(self)@,
            },
    {
        if image.index >= res.images.len() {
            return Err(RecordError::UnknownResource);
        }
        let c = self.queue.capabilities;
        if !(c.graphics || c.compute) {
            return Err(RecordError::UnsupportedByQueue);
        }
        if !self.image_free_for_queue(res, image) {
            return Err(RecordError::Usage);
        }
        self.ops.push(Command::ClearImage { image, color });
        Ok(())
    }

    /// Appends a copy of all of `image`'s pixels to the start of `buffer`.
    pub fn copy_image_to_buffer(&mut self, res: &Resources, image: ImageId, buffer: BufferId) -> (r: Result<(), RecordError>)
        ensures
            final(self).spec_queue() == old(self).spec_queue(),
            match copy_image_error(*res, old(self).spec_queue(), image, buffer) {
                None => r is Ok && final(self)@ == old(self)@.push(Command::CopyImageToBuffer { image, buffer }),
                Some(e) => r == Err::<(), RecordError>(e) && final(self)@ == old(self)@,
            },
    {
        if image.index >= res.images.len() || buffer.index >= res.buffers.len() {
            return Err(RecordError::UnknownResource);
        }
        let c = self.queue.capabilities;
        if !(c.transfer || c.graphics || c.compute) {
            return Err(RecordError::UnsupportedByQueue);
        }
        let img = &res.images[image.index];
        let px = img.format.pixel_size() as u128;
        assert(img.width as int * img.height as int <= 0xffff_ffff * 0xffff_ffff) by (nonlinear_arith);
        let wh: u128 = img.width as u128 * img.height as u128;
        assert(wh as int * px as int <= 0xffff_ffff * 0xffff_ffff * 4) by (nonlinear_arith)
            requires
                wh as int <= 0xffff_ffff * 0xffff_ffff,
                px <= 4,
        ;
        let size: u128 = wh * px;
        let buf = &res.buffers[buffer.index];
        if (buf.data.len() as u128) < size {
            return Err(RecordError::SizeMismatch);
        }
        if !self.image_free_for_queue(res, image) || !buf.usage.transfer_dst {
            return Err(RecordError::Usage);
        }
        self.ops.push(Command::CopyImageToBuffer { image, buffer });
        Ok(())
    }

    /// Appends a dispatch of `gx` by `gy` by `gz` work groups of `pipeline`,
    /// with `set` bound. The kernel's target is the buffer at the set's first
    /// slot, taken at this call.
    pub fn dispatch(&mut self, res: &Resources, pipeline: &Pipeline, set: &DescriptorSet, gx: u32, gy: u32, gz: u32) -> (r: Result<(), RecordError>)
        ensures
            final(self).spec_queue() == old(self).spec_queue(),
            match dispatch_error(*res, old(self).spec_queue(), *pipeline, *set) {
                None => r is Ok && final(self)@ == old(self)@.push(
                    dispatch_command(*pipeline, *set, gx, gy, gz),
                ),
                Some(e) => r == Err::<(), RecordError>(e) && final(self)@ == old(self)@,
            },
    {
        if !self.queue.capabilities.compute {
            return Err(RecordError::UnsupportedByQueue);
        }
        if set.slots.len() != pipeline.slots.len() || set.buffers.len() != pipeline.slots.len()
            || pipeline.slots.len() == 0 {
            assert(set.slots@ != pipeline.slots@ || set.buffers@.len() != pipeline.slots@.len()
                || pipeline.slots@.len() == 0);
            return Err(RecordError::BindingMismatch);
        }
        let mut i: usize = 0;
        while i < set.slots.len()
            invariant
                i <= set.slots@.len(),
                set.slots@.len() == pipeline.slots@.len(),
                set.buffers@.len() == pipeline.slots@.len(),
                pipeline.slots@.len() > 0,
                self.queue.capabilities.compute,
                *self == *old(self),
                forall|j: int| 0 <= j < i ==> #[trigger] set.slots@[j] == pipeline.slots@[j],
                forall|j: int|
                    0 <= j < i ==> res.has_buffer(#[trigger] set.buffers@[j]) && res.buffer(
                        set.buffers@[j],
                    ).usage.storage,
            decreases set.slots@.len() - i,
        {
            if set.slots[i] != pipeline.slots[i] {
                assert(set.slots@[i as int] != pipeline.slots@[i as int]);
                return Err(RecordError::BindingMismatch);
            }
            let b = set.buffers[i];
            if b.index >= res.buffers.len() || !res.buffers[b.index].usage.storage {
                assert(!(res.has_buffer(set.buffers@[i as int]) && res.buffer(
                    set.buffers@[i as int],
                ).usage.storage));
                assert(!set_buffers_usable(*res, set.buffers@));
                return Err(RecordError::BindingMismatch);
            }
            i = i + 1;
        }
        assert(set.slots@ =~= pipeline.slots@);
        let invocations: u64 = if gx == 0 || gy == 0 || gz == 0 {
            0
        } else {
            assert(gx as int * pipeline.local_size_x as int <= 0xffff_ffff * 0xffff_ffff) by (nonlinear_arith);
            gx as u64 * pipeline.local_size_x as u64
        };
        self.ops.push(
            Command::Dispatch { kernel: pipeline.kernel, target: set.buffers[0], invocations },
        );
        Ok(())
    }

    /// Ends the recording; the list holds the operations in call order.
    pub fn finalize(self) -> (r: CommandList)
        ensures
            r@ == self@,
            r.spec_queue() == self.spec_queue(),
    {
        CommandList { queue: self.queue, ops: self.ops }
    }
}

impl CommandList {
    pub closed spec fn spec_queue(self) -> QueueFamily {
        self.queue
    }

    pub fn queue(&self) -> (r: QueueFamily)
        ensures
            r == self.spec_queue(),
    {
        self.queue
    }

    pub fn len(&self) -> (r: usize)
        ensures
            r == self@.len(),
    {
        self.ops.len()
    }

    /// Operation `i`, in recorded order.
    pub fn get(&self, i: usize) -> (r: Command)
        requires
            i < self@.len(),
        ensures
            r == self@[i as int],
    {
        self.ops[i]
    }
}

} // verus!
