use vstd::prelude::*;
use crate::command::{
    copy_buffer_error, copy_image_error, clear_image_error, dispatch_command, image_size,
    runs_transfers, Command, RecordError,
};
use crate::device::QueueFamily;
use crate::execute::{contents, run, step, filled, scaled, Contents};
use crate::pipeline::{DescriptorSet, Kernel, Pipeline};
use crate::resource::{pixel_bytes, BufferId, ImageId, Resources, Rgba8};
use crate::sync::{next_state, wait_result, Submission, TokenState, WaitError, WaitOutcome};
use crate::words::{lemma_div4, lemma_word_round_trip, words_of};

verus! {

proof fn lemma_run_one(meta: Resources, c: Contents, cmd: Command)
    ensures
        run(meta, c, seq![cmd]) == step(meta, c, cmd),
{
    assert(seq![cmd].drop_last() =~= Seq::<Command>::empty());
    assert(run(meta, c, Seq::<Command>::empty()) == c);
    assert(seq![cmd].last() == cmd);
}

/// A copy that records without error, once its list has run, leaves the
/// destination holding exactly what the source held at submission.
pub proof fn lemma_copy_then_wait(res: Resources, queue: QueueFamily, src: BufferId, dst: BufferId)
    requires
        copy_buffer_error(res, queue, src, dst) is None,
    ensures
        run(res, contents(res), seq![Command::CopyBuffer { src, dst }]).buffers[dst.index as int]
            == res.bytes(src),
{
    lemma_run_one(res, contents(res), Command::CopyBuffer { src, dst });
}

/// Between existing buffers, on a queue that runs copies, a copy whose
/// lengths differ is refused at recording with a size mismatch.
pub proof fn lemma_copy_size_mismatch(res: Resources, queue: QueueFamily, src: BufferId, dst: BufferId)
    requires
        res.has_buffer(src),
        res.has_buffer(dst),
        runs_transfers(queue.capabilities),
        res.length(src) != res.length(dst),
    ensures
        copy_buffer_error(res, queue, src, dst) == Some(RecordError::SizeMismatch),
{
}

/// The words after the multiply kernel ran over the first `count` words of
/// `b`: those are multiplied, wrapping, and the rest are kept.
pub proof fn lemma_scaled_words(b: Seq<u8>, factor: u32, count: int)
    requires
        0 <= count <= b.len() / 4,
    ensures
        words_of(scaled(b, factor, count)).len() == words_of(b).len(),
        forall|i: int|
            0 <= i < words_of(b).len() ==> #[trigger] words_of(scaled(b, factor, count))[i] == if i
                < count {
                words_of(b)[i].wrapping_mul(factor)
            } else {
                words_of(b)[i]
            },
{
    let s = scaled(b, factor, count);
    assert forall|i: int| 0 <= i < words_of(b).len() implies #[trigger] words_of(s)[i] == if i
        < count {
        words_of(b)[i].wrapping_mul(factor)
    } else {
        words_of(b)[i]
    } by {
        lemma_div4(i, 0);
        lemma_div4(i, 1);
        lemma_div4(i, 2);
        lemma_div4(i, 3);
        assert(4 * i + 3 < b.len()) by (nonlinear_arith)
            requires
                0 <= i < b.len() / 4,
        ;
        lemma_word_round_trip(words_of(b)[i].wrapping_mul(factor));
    }
}

/// A dispatch of the multiply-by-`factor` program over at least as many
/// invocations as the buffer has words, once run, leaves every word
/// multiplied by `factor` (wrapping at 32 bits).
pub proof fn lemma_dispatch_multiplies(res: Resources, target: BufferId, factor: u32, invocations: u64)
    requires
        res.has_buffer(target),
        invocations >= res.length(target) / 4,
    ensures
        words_of(
            run(
                res,
                contents(res),
                seq![Command::Dispatch { kernel: Kernel::MultiplyWords { factor }, target, invocations }],
            ).buffers[target.index as int],
        ) == words_of(res.bytes(target)).map_values(|x: u32| x.wrapping_mul(factor)),
{
    let cmd = Command::Dispatch { kernel: Kernel::MultiplyWords { factor }, target, invocations };
    lemma_run_one(res, contents(res), cmd);
    let b = res.bytes(target);
    lemma_scaled_words(b, factor, b.len() as int / 4);
    assert(words_of(scaled(b, factor, b.len() as int / 4)) =~= words_of(b).map_values(
        |x: u32| x.wrapping_mul(factor),
    ));
}

/// Clearing an image to `color` and then copying it to a buffer, once run,
/// fills the buffer's first bytes with the color's pixel in the image's
/// format, once per pixel.
pub proof fn lemma_clear_then_copy(res: Resources, queue: QueueFamily, image: ImageId, buffer: BufferId, color: Rgba8)
    requires
        clear_image_error(res, queue, image) is None,
        copy_image_error(res, queue, image, buffer) is None,
        res.length(buffer) <= usize::MAX,
    ensures
        ({
            let out = run(
                res,
                contents(res),
                seq![Command::ClearImage { image, color }, Command::CopyImageToBuffer { image, buffer }],
            ).buffers[buffer.index as int];
            let pixel = pixel_bytes(res.image(image).format, color);
            &&& out.len() == res.length(buffer)
            &&& forall|j: int|
                0 <= j < image_size(res, image) ==> #[trigger] out[j] == pixel[j % (pixel.len() as int)]
        }),
{
    let c0 = contents(res);
    let clear = Command::ClearImage { image, color };
    let copy = Command::CopyImageToBuffer { image, buffer };
    let ops = seq![clear, copy];
    assert(ops.drop_last() =~= seq![clear]);
    lemma_run_one(res, c0, clear);
    let c1 = step(res, c0, clear);
    let im = res.image(image);
    let pixel = pixel_bytes(im.format, color);
    let n = im.width as int * im.height as int;
    assert(pixel.len() == im.format.spec_pixel_size());
    assert(filled(pixel, n).len() == image_size(res, image));
    assert(c1.images[image.index as int] == filled(pixel, n));
}

/// A wait that runs out of time leaves the submission pending and reports a
/// time-out; a later wait that sees the device signal completes it.
pub proof fn lemma_timeout_then_complete()
    ensures
        next_state(TokenState::Submitted, WaitOutcome::TimedOut) == TokenState::Submitted,
        wait_result(TokenState::Submitted, WaitOutcome::TimedOut) == Err::<(), WaitError>(
            WaitError::TimedOut,
        ),
        next_state(next_state(TokenState::Submitted, WaitOutcome::TimedOut), WaitOutcome::Signaled)
            == TokenState::Completed,
        wait_result(next_state(TokenState::Submitted, WaitOutcome::TimedOut), WaitOutcome::Signaled)
            == Ok::<(), WaitError>(()),
{
}

/// On the host queue, a wait whose budget is shorter than a pending list
/// times out and leaves it pending; a wait with no budget then completes it.
pub proof fn lemma_short_wait_then_wait(len: nat, budget: u64)
    requires
        (budget as nat) < len,
    ensures
        Submission::outcome_for(len, Some(budget)) == WaitOutcome::TimedOut,
        next_state(TokenState::Submitted, Submission::outcome_for(len, Some(budget)))
            == TokenState::Submitted,
        next_state(
            next_state(TokenState::Submitted, Submission::outcome_for(len, Some(budget))),
            Submission::outcome_for(len, None),
        ) == TokenState::Completed,
{
}

/// A recorded dispatch acts on the buffer that its own descriptor set bound
/// when it was recorded: any buffer other than that one, such as one that a
/// set built afterwards binds, is left as it was.
pub proof fn lemma_dispatch_uses_recorded_set(meta: Resources, c: Contents, pipeline: Pipeline, set: DescriptorSet, later: DescriptorSet, gx: u32, gy: u32, gz: u32)
    requires
        later.buffers@.len() > 0,
        set.buffers@.len() > 0,
        later.buffers@[0] != set.buffers@[0],
    ensures
        step(meta, c, dispatch_command(pipeline, set, gx, gy, gz)).images == c.images,
        step(meta, c, dispatch_command(pipeline, set, gx, gy, gz)).buffers.len() == c.buffers.len(),
        forall|i: int|
            0 <= i < c.buffers.len() && i != set.buffers@[0].index ==> #[trigger] step(
                meta,
                c,
                dispatch_command(pipeline, set, gx, gy, gz),
            ).buffers[i] == c.buffers[i],
        later.buffers@[0].index < c.buffers.len() ==> step(
            meta,
            c,
            dispatch_command(pipeline, set, gx, gy, gz),
        ).buffers[later.buffers@[0].index as int] == c.buffers[later.buffers@[0].index as int],
{
}

} // verus!
