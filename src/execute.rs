use vstd::prelude::*;
use crate::command::{image_size, Command, CommandList};
use crate::pipeline::Kernel;
use crate::resource::{encode_pixel, pixel_bytes, Buffer, Image, Resources};
use crate::words::{byte_of_word, le_word, word_byte, word_from_bytes, words_of, lemma_div4};

verus! {

/// What the device holds: the bytes of each buffer and of each image.
pub struct Contents {
    pub buffers: Seq<Seq<u8>>,
    pub images: Seq<Seq<u8>>,
}

pub open spec fn contents(res: Resources) -> Contents {
    Contents {
        buffers: Seq::new(res.buffers@.len(), |i: int| res.buffers@[i].data@),
        images: Seq::new(res.images@.len(), |i: int| res.images@[i].data@),
    }
}

/// Both arenas hold the same resources, with the same usage, visibility,
/// extents and formats; only bytes may differ.
pub open spec fn same_layout(a: Resources, b: Resources) -> bool {
    &&& a.buffers@.len() == b.buffers@.len()
    &&& a.images@.len() == b.images@.len()
    &&& forall|i: int|
        0 <= i < a.buffers@.len() ==> {
            &&& (#[trigger] a.buffers@[i]).usage == b.buffers@[i].usage
            &&& a.buffers@[i].host_visible == b.buffers@[i].host_visible
        }
    &&& forall|i: int|
        0 <= i < a.images@.len() ==> {
            &&& (#[trigger] a.images@[i]).width == b.images@[i].width
            &&& a.images@[i].height == b.images@[i].height
            &&& a.images@[i].format == b.images@[i].format
            &&& a.images@[i].queue_family == b.images@[i].queue_family
        }
}

/// `n` pixels, each the bytes of `pixel`.
pub open spec fn filled(pixel: Seq<u8>, n: int) -> Seq<u8> {
    Seq::new((n * pixel.len()) as nat, |j: int| pixel[j % (pixel.len() as int)])
}

/// `b` with each of its first `count` words multiplied by `factor`, wrapping.
pub open spec fn scaled(b: Seq<u8>, factor: u32, count: int) -> Seq<u8> {
    Seq::new(
        b.len(),
        |j: int|
            if j / 4 < count {
                word_byte(words_of(b)[j / 4].wrapping_mul(factor), j % 4)
            } else {
                b[j]
            },
    )
}

pub open spec fn min(a: int, b: int) -> int {
    if a < b {
        a
    } else {
        b
    }
}

/// What one operation does to the contents. `meta` gives the images'
/// extents and formats. An operation whose resources are missing or do not fit
/// leaves the contents as they are; recording refuses such operations.
pub open spec fn step(meta: Resources, c: Contents, cmd: Command) -> Contents {
    match cmd {
        Command::CopyBuffer { src, dst } => {
            if src.index < c.buffers.len() && dst.index < c.buffers.len()
                && c.buffers[src.index as int].len() == c.buffers[dst.index as int].len() {
                Contents {
                    buffers: c.buffers.update(dst.index as int, c.buffers[src.index as int]),
                    images: c.images,
                }
            } else {
                c
            }
        },
        Command::ClearImage { image, color } => {
            if image.index < c.images.len() && image.index < meta.images@.len() && image_size(
                meta,
                image,
            ) <= usize::MAX {
                let im = meta.image(image);
                Contents {
                    buffers: c.buffers,
                    images: c.images.update(
                        image.index as int,
                        filled(pixel_bytes(im.format, color), im.width as int * im.height as int),
                    ),
                }
            } else {
                c
            }
        },
        Command::CopyImageToBuffer { image, buffer } => {
            if image.index < c.images.len() && buffer.index < c.buffers.len()
                && c.images[image.index as int].len() <= c.buffers[buffer.index as int].len() {
                let px = c.images[image.index as int];
                let b = c.buffers[buffer.index as int];
                Contents {
                    buffers: c.buffers.update(buffer.index as int, px + b.skip(px.len() as int)),
                    images: c.images,
                }
            } else {
                c
            }
        },
        Command::Dispatch { kernel, target, invocations } => {
            if target.index < c.buffers.len() {
                let b = c.buffers[target.index as int];
                match kernel {
                    Kernel::MultiplyWords { factor } => Contents {
                        buffers: c.buffers.update(
                            target.index as int,
                            scaled(b, factor, min(invocations as int, b.len() as int / 4)),
                        ),
                        images: c.images,
                    },
                }
            } else {
                c
            }
        },
    }
}

/// The contents after running `ops` in order from `c`.
pub open spec fn run(meta: Resources, c: Contents, ops: Seq<Command>) -> Contents
    decreases ops.len(),
{
    if ops.len() == 0 {
        c
    } else {
        step(meta, run(meta, c, ops.drop_last()), ops.last())
    }
}

pub proof fn lemma_step_same_layout(a: Resources, b: Resources, c: Contents, cmd: Command)
    requires
        same_layout(a, b),
    ensures
        step(a, c, cmd) == step(b, c, cmd),
{
    match cmd {
        Command::ClearImage { image, color } => {
            if image.index < a.images@.len() {
                assert(a.images@[image.index as int].width == b.images@[image.index as int].width);
            }
        },
        _ => {},
    }
}

fn copy_bytes(v: &Vec<u8>) -> (r: Vec<u8>)
    ensures
        r@ == v@,
{
    let mut out: Vec<u8> = Vec::new();
    let mut i: usize = 0;
    while i < v.len()
        invariant
            i <= v@.len(),
            out@ == v@.take(i as int),
        decreases v@.len() - i,
    {
        out.push(v[i]);
        i = i + 1;
        assert(out@ =~= v@.take(i as int));
    }
    assert(v@.take(v@.len() as int) =~= v@);
    out
}

fn set_buffer_data(res: &mut Resources, i: usize, data: Vec<u8>)
    requires
        i < old(res).buffers@.len(),
    ensures
        same_layout(*old(res), *final(res)),
        contents(*final(res)) == (Contents {
            buffers: contents(*old(res)).buffers.update(i as int, data@),
            images: contents(*old(res)).images,
        }),
{
    let b = res.buffers.remove(i);
    res.buffers.insert(i, Buffer { usage: b.usage, host_visible: b.host_visible, data });
    assert(contents(*res).buffers =~= contents(*old(res)).buffers.update(i as int, data@));
    assert(contents(*res).images =~= contents(*old(res)).images);
}

fn set_image_data(res: &mut Resources, i: usize, data: Vec<u8>)
    requires
        i < old(res).images@.len(),
    ensures
        same_layout(*old(res), *final(res)),
        contents(*final(res)) == (Contents {
            buffers: contents(*old(res)).buffers,
            images: contents(*old(res)).images.update(i as int, data@),
        }),
{
    let m = res.images.remove(i);
    res.images.insert(
        i,
        Image {
            width: m.width,
            height: m.height,
            format: m.format,
            queue_family: m.queue_family,
            data,
        },
    );
    assert(contents(*res).buffers =~= contents(*old(res)).buffers);
    assert(contents(*res).images =~= contents(*old(res)).images.update(i as int, data@));
}

/// `n` copies of `pixel`, back to back.
fn fill_pixels(pixel: &Vec<u8>, n: usize) -> (r: Vec<u8>)
    requires
        pixel@.len() > 0,
        n * pixel@.len() <= usize::MAX,
    ensures
        r@ == filled(pixel@, n as int),
{
    let len: usize = pixel.len();
    let mut out: Vec<u8> = Vec::new();
    let mut p: usize = 0;
    while p < n
        invariant
            len == pixel@.len(),
            len > 0,
            n * len <= usize::MAX,
            p <= n,
            out@.len() == p * len,
            forall|j: int| 0 <= j < out@.len() ==> #[trigger] out@[j] == pixel@[j % (len as int)],
        decreases n - p,
    {
        assert((p + 1) * len <= n * len) by (nonlinear_arith)
            requires
                p < n,
        ;
        let mut k: usize = 0;
        while k < len
            invariant
                len == pixel@.len(),
                len > 0,
                p < n,
                (p + 1) * len <= usize::MAX,
                k <= len,
                out@.len() == p * len + k,
                forall|j: int| 0 <= j < out@.len() ==> #[trigger] out@[j] == pixel@[j % (len as int)],
            decreases len - k,
        {
            proof {
                vstd::arithmetic::div_mod::lemma_fundamental_div_mod_converse(
                    (p * len + k) as int,
                    len as int,
                    p as int,
                    k as int,
                );
            }
            out.push(pixel[k]);
            k = k + 1;
        }
        assert(out@.len() == (p + 1) * len) by (nonlinear_arith)
            requires
                out@.len() == p * len + len,
        ;
        p = p + 1;
    }
    assert(out@ =~= filled(pixel@, n as int));
    out
}

/// Runs one operation on the resources.
pub fn apply_command(res: &mut Resources, cmd: Command)
    ensures
        same_layout(*old(res), *final(res)),
        contents(*final(res)) == step(*old(res), contents(*old(res)), cmd),
{
    match cmd {
        Command::CopyBuffer { src, dst } => {
            if src.index < res.buffers.len() && dst.index < res.buffers.len()
                && res.buffers[src.index].data.len() == res.buffers[dst.index].data.len() {
                let data = copy_bytes(&res.buffers[src.index].data);
                set_buffer_data(res, dst.index, data);
            }
        },
        Command::ClearImage { image, color } => {
            if image.index < res.images.len() {
                let im = &res.images[image.index];
                let px: usize = im.format.pixel_size();
                assert(im.width as int * im.height as int <= 0xffff_ffff * 0xffff_ffff) by (nonlinear_arith);
                let wh: u128 = im.width as u128 * im.height as u128;
                assert(wh as int * px as int <= 0xffff_ffff * 0xffff_ffff * 4) by (nonlinear_arith)
                    requires
                        wh as int <= 0xffff_ffff * 0xffff_ffff,
                        px <= 4,
                ;
                if wh * (px as u128) <= usize::MAX as u128 {
                    let pixel = encode_pixel(im.format, color);
                    assert(wh <= usize::MAX) by (nonlinear_arith)
                        requires
                            wh * px <= usize::MAX,
                            px >= 1,
                    ;
                    let data = fill_pixels(&pixel, wh as usize);
                    set_image_data(res, image.index, data);
                }
            }
        },
        Command::CopyImageToBuffer { image, buffer } => {
            if image.index < res.images.len() && buffer.index < res.buffers.len()
                && res.images[image.index].data.len() <= res.buffers[buffer.index].data.len() {
                let px = &res.images[image.index].data;
                let n: usize = px.len();
                let mut data = copy_bytes(&res.buffers[buffer.index].data);
                let ghost b = data@;
                let mut j: usize = 0;
                while j < n
                    invariant
                        n == px@.len(),
                        n <= b.len(),
                        j <= n,
                        data@.len() == b.len(),
                        forall|m: int|
                            0 <= m < b.len() ==> #[trigger] data@[m] == if m < j {
                                px@[m]
                            } else {
                                b[m]
                            },
                    decreases n - j,
                {
                    data.set(j, px[j]);
                    j = j + 1;
                }
                assert(data@ =~= px@ + b.skip(n as int));
                set_buffer_data(res, buffer.index, data);
            }
        },
        Command::Dispatch { kernel, target, invocations } => {
            if target.index < res.buffers.len() {
                match kernel {
                    Kernel::MultiplyWords { factor } => {
                        let mut data = copy_bytes(&res.buffers[target.index].data);
                        let ghost b = data@;
                        let len: usize = data.len();
                        let words: usize = len / 4;
                        let count: usize = if (invocations as u128) < words as u128 {
                            invocations as usize
                        } else {
                            words
                        };
                        let mut i: usize = 0;
                        while i < count
                            invariant
                                words == b.len() / 4,
                                len == b.len(),
                                count <= words,
                                count == min(invocations as int, b.len() as int / 4),
                                i <= count,
                                data@.len() == b.len(),
                                forall|j: int|
                                    0 <= j < b.len() ==> #[trigger] data@[j] == if j / 4 < i {
                                        word_byte(words_of(b)[j / 4].wrapping_mul(factor), j % 4)
                                    } else {
                                        b[j]
                                    },
                            decreases count - i,
                        {
                            assert(4 * i + 3 < b.len()) by (nonlinear_arith)
                                requires
                                    i < count,
                                    count <= words,
                                    words == b.len() / 4,
                            ;
                            let base: usize = 4 * i;
                            proof {
                                lemma_div4(i as int, 0);
                                lemma_div4(i as int, 1);
                                lemma_div4(i as int, 2);
                                lemma_div4(i as int, 3);
                            }
                            let w = word_from_bytes(
                                data[base],
                                data[base + 1],
                                data[base + 2],
                                data[base + 3],
                            );
                            assert(w == words_of(b)[i as int]);
                            let v = w.wrapping_mul(factor);
                            let mut k: usize = 0;
                            while k < 4
                                invariant
                                    base == 4 * i,
                                    base + 3 < b.len(),
                                    k <= 4,
                                    v == words_of(b)[i as int].wrapping_mul(factor),
                                    data@.len() == b.len(),
                                    forall|j: int|
                                        0 <= j < b.len() ==> #[trigger] data@[j] == if j / 4 < i
                                            || (base <= j < base + k) {
                                            word_byte(words_of(b)[j / 4].wrapping_mul(factor), j % 4)
                                        } else {
                                            b[j]
                                        },
                                decreases 4 - k,
                            {
                                proof {
                                    lemma_div4(i as int, k as int);
                                }
                                data.set(base + k, byte_of_word(v, k));
                                k = k + 1;
                            }
                            proof {
                                assert forall|j: int| 0 <= j < b.len() implies #[trigger] data@[j] == if j / 4 < i + 1 {
                                    word_byte(words_of(b)[j / 4].wrapping_mul(factor), j % 4)
                                } else {
                                    b[j]
                                } by {
                                    if base <= j < base + 4 {
                                        lemma_div4(i as int, j - base);
                                    } else if j < base {
                                        assert(j / 4 < i) by (nonlinear_arith)
                                            requires
                                                0 <= j < base,
                                                base == 4 * i,
                                        ;
                                    } else {
                                        assert(j / 4 >= i + 1) by (nonlinear_arith)
                                            requires
                                                j >= base + 4,
                                                base == 4 * i,
                                        ;
                                    }
                                }
                            }
                            i = i + 1;
                        }
                        assert(data@ =~= scaled(b, factor, count as int));
                        set_buffer_data(res, target.index, data);
                    },
                }
            }
        },
    }
}

/// Runs every operation of `list`, in recorded order.
pub fn execute_list(res: &mut Resources, list: &CommandList)
    ensures
        same_layout(*old(res), *final(res)),
        contents(*final(res)) == run(*old(res), contents(*old(res)), list@),
{
    let n = list.len();
    let mut i: usize = 0;
    while i < n
        invariant
            n == list@.len(),
            i <= n,
            same_layout(*old(res), *res),
            contents(*res) == run(*old(res), contents(*old(res)), list@.take(i as int)),
        decreases n - i,
    {
        let cmd = list.get(i);
        let ghost before = *res;
        apply_command(res, cmd);
        proof {
            lemma_step_same_layout(before, *old(res), contents(before), cmd);
            let t = list@.take(i as int + 1);
            assert(t.drop_last() =~= list@.take(i as int));
            assert(t.last() == cmd);
        }
        i = i + 1;
    }
    assert(list@.take(n as int) =~= list@);
}

} // verus!
