use vstd::prelude::*;
use crate::words::{bytes_of_words, encode_words, words_of, decode_words, byte_of_word, word_byte};

verus! {

/// What a buffer was created to be used for.
#[derive(Clone, Copy, Debug, PartialEq, Eq, Structural)]
pub struct BufferUsage {
    pub transfer_src: bool,
    pub transfer_dst: bool,
    pub storage: bool,
}

impl BufferUsage {
    pub fn all() -> (r: BufferUsage)
        ensures
            r.transfer_src && r.transfer_dst && r.storage,
    {
        BufferUsage { transfer_src: true, transfer_dst: true, storage: true }
    }

    pub fn none() -> (r: BufferUsage)
        ensures
            !r.transfer_src && !r.transfer_dst && !r.storage,
    {
        BufferUsage { transfer_src: false, transfer_dst: false, storage: false }
    }
}

/// Pixel formats of an image, each with 8 bits per channel.
#[derive(Clone, Copy, Debug, PartialEq, Eq, Structural)]
pub enum Format {
    R8G8B8A8Unorm,
    B8G8R8A8Unorm,
    R8Unorm,
}

impl Format {
    pub open spec fn spec_pixel_size(self) -> nat {
        match self {
            Format::R8Unorm => 1,
            _ => 4,
        }
    }

    /// Bytes taken by one pixel.
    pub fn pixel_size(&self) -> (r: usize)
        ensures
            r == self.spec_pixel_size(),
    {
        match self {
            Format::R8Unorm => 1,
            _ => 4,
        }
    }
}

/// A color with each channel already in unsigned-normalized 8-bit form
/// (0 stands for 0.0, 255 for 1.0).
#[derive(Clone, Copy, Debug, PartialEq, Eq, Structural)]
pub struct Rgba8 {
    pub r: u8,
    pub g: u8,
    pub b: u8,
    pub a: u8,
}

/// How one pixel of `color` is stored in `format`.
pub open spec fn pixel_bytes(format: Format, color: Rgba8) -> Seq<u8> {
    match format {
        Format::R8G8B8A8Unorm => seq![color.r, color.g, color.b, color.a],
        Format::B8G8R8A8Unorm => seq![color.b, color.g, color.r, color.a],
        Format::R8Unorm => seq![color.r],
    }
}

pub fn encode_pixel(format: Format, color: Rgba8) -> (r: Vec<u8>)
    ensures
        r@ == pixel_bytes(format, color),
{
    let mut v: Vec<u8> = Vec::new();
    match format {
        Format::R8G8B8A8Unorm => {
            v.push(color.r);
            v.push(color.g);
            v.push(color.b);
            v.push(color.a);
        },
        Format::B8G8R8A8Unorm => {
            v.push(color.b);
            v.push(color.g);
            v.push(color.r);
            v.push(color.a);
        },
        Format::R8Unorm => {
            v.push(color.r);
        },
    }
    assert(v@ =~= pixel_bytes(format, color));
    v
}

/// A linear buffer: its usage intent, whether the host can map it, and its
/// bytes. Its length is fixed when it is created.
pub struct Buffer {
    pub usage: BufferUsage,
    pub host_visible: bool,
    pub data: Vec<u8>,
}

/// An opaque two-dimensional image. `data` is the device's copy of its
/// pixels, reachable only through recorded operations.
pub struct Image {
    pub width: u32,
    pub height: u32,
    pub format: Format,
    pub queue_family: Option<u32>,
    pub data: Vec<u8>,
}

/// Bytes taken by all the pixels of an image.
pub open spec fn image_byte_len(width: u32, height: u32, format: Format) -> int {
    width as int * height as int * format.spec_pixel_size() as int
}

#[derive(Clone, Copy, Debug, PartialEq, Eq, Structural)]
pub struct BufferId {
    pub index: usize,
}

#[derive(Clone, Copy, Debug, PartialEq, Eq, Structural)]
pub struct ImageId {
    pub index: usize,
}

#[derive(Clone, Copy, Debug, PartialEq, Eq, Structural)]
pub enum AllocationError {
    OutOfMemory,
}

/// The arena of buffers and images of one device. Ids are positions in it and
/// stay valid: resources are only ever added.
pub struct Resources {
    pub buffers: Vec<Buffer>,
    pub images: Vec<Image>,
}

impl Resources {
    pub open spec fn has_buffer(self, id: BufferId) -> bool {
        id.index < self.buffers@.len()
    }

    pub open spec fn has_image(self, id: ImageId) -> bool {
        id.index < self.images@.len()
    }

    pub open spec fn buffer(self, id: BufferId) -> Buffer {
        self.buffers@[id.index as int]
    }

    pub open spec fn image(self, id: ImageId) -> Image {
        self.images@[id.index as int]
    }

    /// The bytes of a buffer.
    pub open spec fn bytes(self, id: BufferId) -> Seq<u8> {
        self.buffers@[id.index as int].data@
    }

    /// The byte length of a buffer.
    pub open spec fn length(self, id: BufferId) -> nat {
        self.bytes(id).len()
    }

    /// `self` is `old` with one buffer added at the end.
    pub open spec fn buffer_added(self, old: Resources, id: BufferId) -> bool {
        &&& id.index == old.buffers@.len()
        &&& self.buffers@.len() == old.buffers@.len() + 1
        &&& forall|i: int| 0 <= i < old.buffers@.len() ==> #[trigger] self.buffers@[i] == old.buffers@[i]
        &&& self.images@ == old.images@
    }

    pub fn new() -> (r: Resources)
        ensures
            r.buffers@.len() == 0,
            r.images@.len() == 0,
    {
        Resources { buffers: Vec::new(), images: Vec::new() }
    }

    /// A host-visible buffer that holds exactly `bytes`.
    pub fn create_buffer_from_bytes(&mut self, usage: BufferUsage, bytes: Vec<u8>) -> (id: BufferId)
        ensures
            final(self).buffer_added(*old(self), id),
            final(self).bytes(id) == bytes@,
            final(self).length(id) == bytes@.len(),
            final(self).buffer(id).usage == usage,
            final(self).buffer(id).host_visible,
    {
        let id = BufferId { index: self.buffers.len() };
        self.buffers.push(Buffer { usage, host_visible: true, data: bytes });
        id
    }

    /// A host-visible buffer that holds the words of `values` in order, four
    /// little-endian bytes each. Fails when that length does not fit in memory.
    pub fn create_buffer_from_words(&mut self, usage: BufferUsage, values: &Vec<u32>) -> (r: Result<
        BufferId,
        AllocationError,
    >)
        ensures
            match r {
                Ok(id) => {
                    &&& final(self).buffer_added(*old(self), id)
                    &&& final(self).length(id) == 4 * values@.len()
                    &&& final(self).bytes(id) == bytes_of_words(values@)
                    &&& words_of(final(self).bytes(id)) == values@
                    &&& final(self).buffer(id).usage == usage
                    &&& final(self).buffer(id).host_visible
                },
                Err(_) => 4 * values@.len() > usize::MAX && *final(self) == *old(self),
            },
    {
        if values.len() > usize::MAX / 4 {
            return Err(AllocationError::OutOfMemory);
        }
        let bytes = encode_words(values);
        proof {
            crate::words::lemma_words_of_bytes(values@);
        }
        Ok(self.create_buffer_from_bytes(usage, bytes))
    }

    /// A host-visible buffer sized for one word, holding `value`.
    pub fn create_buffer_from_word(&mut self, usage: BufferUsage, value: u32) -> (id: BufferId)
        ensures
            final(self).buffer_added(*old(self), id),
            final(self).length(id) == 4,
            words_of(final(self).bytes(id)) == seq![value],
            final(self).buffer(id).usage == usage,
    {
        let mut values: Vec<u32> = Vec::new();
        values.push(value);
        let bytes = encode_words(&values);
        proof {
            crate::words::lemma_words_of_bytes(values@);
            assert(values@ =~= seq![value]);
        }
        self.create_buffer_from_bytes(usage, bytes)
    }

    /// A host-visible buffer of `len` zero bytes.
    pub fn create_zeroed_buffer(&mut self, usage: BufferUsage, len: usize) -> (id: BufferId)
        ensures
            final(self).buffer_added(*old(self), id),
            final(self).bytes(id) == Seq::new(len as nat, |i: int| 0u8),
            final(self).buffer(id).usage == usage,
    {
        let bytes = zeros(len);
        self.create_buffer_from_bytes(usage, bytes)
    }

    /// A device-local buffer of `len` bytes; the host cannot map it.
    pub fn create_device_buffer(&mut self, usage: BufferUsage, len: usize) -> (id: BufferId)
        ensures
            final(self).buffer_added(*old(self), id),
            final(self).length(id) == len,
            final(self).buffer(id).usage == usage,
            !final(self).buffer(id).host_visible,
    {
        let id = BufferId { index: self.buffers.len() };
        self.buffers.push(Buffer { usage, host_visible: false, data: zeros(len) });
        id
    }

    /// Device-local storage for a `width` by `height` image. Fails when an
    /// extent is zero or the pixels do not fit in memory. The contents are
    /// undefined until a clear or a copy writes them.
    pub fn create_image(&mut self, width: u32, height: u32, format: Format, queue_family: Option<
        u32,
    >) -> (r: Result<ImageId, AllocationError>)
        ensures
            match r {
                Ok(id) => {
                    &&& width > 0 && height > 0
                    &&& image_byte_len(width, height, format) <= usize::MAX
                    &&& id.index == old(self).images@.len()
                    &&& final(self).images@.len() == old(self).images@.len() + 1
                    &&& forall|i: int| 0 <= i < old(self).images@.len() ==> #[trigger] final(self).images@[i] == old(self).images@[i]
                    &&& final(self).buffers@ == old(self).buffers@
                    &&& final(self).image(id).width == width
                    &&& final(self).image(id).height == height
                    &&& final(self).image(id).format == format
                    &&& final(self).image(id).queue_family == queue_family
                    &&& final(self).image(id).data@.len() == image_byte_len(width, height, format)
                },
                Err(_) => {
                    &&& (width == 0 || height == 0 || image_byte_len(width, height, format) > usize::MAX)
                    &&& *final(self) == *old(self)
                },
            },
    {
        if width == 0 || height == 0 {
            return Err(AllocationError::OutOfMemory);
        }
        let px = format.pixel_size() as u128;
        assert(width as int * height as int <= 0xffff_ffff * 0xffff_ffff) by (nonlinear_arith);
        let wh: u128 = width as u128 * height as u128;
        assert(wh as int * px as int <= 0xffff_ffff * 0xffff_ffff * 4) by (nonlinear_arith)
            requires
                wh as int <= 0xffff_ffff * 0xffff_ffff,
                px <= 4,
        ;
        let total: u128 = wh * px;
        if total > usize::MAX as u128 {
            return Err(AllocationError::OutOfMemory);
        }
        let id = ImageId { index: self.images.len() };
        self.images.push(
            Image { width, height, format, queue_family, data: zeros(total as usize) },
        );
        Ok(id)
    }

    /// The bytes of a host-visible buffer. Only to be called once every
    /// submission that writes the buffer has been waited for.
    pub fn read_host_buffer(&self, id: BufferId) -> (r: &[u8])
        requires
            self.has_buffer(id),
            self.buffer(id).host_visible,
        ensures
            r@ == self.bytes(id),
    {
        self.buffers[id.index].data.as_slice()
    }

    /// The whole words of a host-visible buffer.
    pub fn read_host_words(&self, id: BufferId) -> (r: Vec<u32>)
        requires
            self.has_buffer(id),
            self.buffer(id).host_visible,
        ensures
            r@ == words_of(self.bytes(id)),
    {
        decode_words(self.buffers[id.index].data.as_slice())
    }

    /// Writes one byte of a host-visible buffer from the host.
    pub fn write_host_byte(&mut self, id: BufferId, index: usize, value: u8)
        requires
            old(self).has_buffer(id),
            old(self).buffer(id).host_visible,
            index < old(self).length(id),
        ensures
            final(self).images@ == old(self).images@,
            final(self).buffers@.len() == old(self).buffers@.len(),
            forall|i: int| 0 <= i < old(self).buffers@.len() && i != id.index ==> #[trigger] final(self).buffers@[i] == old(self).buffers@[i],
            final(self).buffer(id).usage == old(self).buffer(id).usage,
            final(self).buffer(id).host_visible,
            final(self).bytes(id) == old(self).bytes(id).update(index as int, value),
    {
        let i = id.index;
        let mut buf = self.buffers.remove(i);
        buf.data.set(index, value);
        self.buffers.insert(i, buf);
        assert(self.buffers@ =~= old(self).buffers@.update(i as int, self.buffers@[i as int]));
    }

    /// Writes word `index` (bytes `4 * index` to `4 * index + 3`) of a
    /// host-visible buffer from the host.
    pub fn write_host_word(&mut self, id: BufferId, index: usize, value: u32)
        requires
            old(self).has_buffer(id),
            old(self).buffer(id).host_visible,
            4 * index + 4 <= old(self).length(id),
        ensures
            final(self).images@ == old(self).images@,
            final(self).buffers@.len() == old(self).buffers@.len(),
            forall|i: int| 0 <= i < old(self).buffers@.len() && i != id.index ==> #[trigger] final(self).buffers@[i] == old(self).buffers@[i],
            final(self).buffer(id).usage == old(self).buffer(id).usage,
            final(self).buffer(id).host_visible,
            final(self).length(id) == old(self).length(id),
            forall|j: int|
                0 <= j < old(self).length(id) ==> #[trigger] final(self).bytes(id)[j] == if 4 * index <= j < 4 * index + 4 {
                    word_byte(value, j - 4 * index)
                } else {
                    old(self).bytes(id)[j]
                },
    {
        let i = id.index;
        let mut buf = self.buffers.remove(i);
        let len: usize = buf.data.len();
        let base: usize = 4 * index;
        let mut k: usize = 0;
        while k < 4
            invariant
                k <= 4,
                base == 4 * index,
                4 * index + 4 <= buf.data@.len(),
                buf.data@.len() == old(self).bytes(id).len(),
                buf.usage == old(self).buffer(id).usage,
                buf.host_visible,
                forall|j: int|
                    0 <= j < buf.data@.len() ==> #[trigger] buf.data@[j] == if 4 * index <= j < 4 * index + k {
                        word_byte(value, j - 4 * index)
                    } else {
                        old(self).bytes(id)[j]
                    },
            decreases 4 - k,
        {
            buf.data.set(base + k, byte_of_word(value, k));
            k = k + 1;
        }
        self.buffers.insert(i, buf);
        assert(self.buffers@ =~= old(self).buffers@.update(i as int, self.buffers@[i as int]));
    }
}

/// `len` zero bytes.
pub fn zeros(len: usize) -> (r: Vec<u8>)
    ensures
        r@ == Seq::new(len as nat, |i: int| 0u8),
{
    let mut v: Vec<u8> = Vec::new();
    let mut i: usize = 0;
    while i < len
        invariant
            i <= len,
            v@ == Seq::new(i as nat, |j: int| 0u8),
        decreases len - i,
    {
        v.push(0u8);
        i = i + 1;
        assert(v@ =~= Seq::new(i as nat, |j: int| 0u8));
    }
    v
}

} // verus!
