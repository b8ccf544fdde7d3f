use gpu_pipeline::command::{Command, CommandRecorder, RecordError};
use gpu_pipeline::device::{select_queue_family, Capabilities, ConfigurationError, QueueFamily};
use gpu_pipeline::execute::apply_command;
use gpu_pipeline::pipeline::{
    bind_descriptor_set, compile_pipeline, BindError, ComputeProgram, Kernel, PipelineError,
    ShaderStage,
};
use gpu_pipeline::resource::{
    encode_pixel, AllocationError, BufferId, BufferUsage, Format, ImageId, Resources, Rgba8,
};
use gpu_pipeline::sync::{Submission, SubmissionToken, TokenState, WaitError, WaitOutcome};
use gpu_pipeline::words::{decode_words, encode_words};

fn caps(graphics: bool, compute: bool, transfer: bool) -> Capabilities {
    Capabilities { graphics, compute, transfer }
}

fn graphics_queue() -> QueueFamily {
    QueueFamily { id: 0, capabilities: caps(true, true, true), queue_count: 1 }
}

fn multiply_program(factor: u32) -> ComputeProgram {
    ComputeProgram {
        stage: ShaderStage::Compute,
        slots: vec![0],
        local_size_x: 64,
        kernel: Kernel::MultiplyWords { factor },
    }
}

fn run_list(res: &mut Resources, rec: CommandRecorder) -> Submission {
    let mut sub = Submission::submit(rec.finalize());
    assert_eq!(sub.signal_and_wait(res, None), Ok(()));
    assert_eq!(sub.state(), TokenState::Completed);
    sub
}

#[test]
fn selects_first_family_with_graphics() {
    let families = vec![
        QueueFamily { id: 0, capabilities: caps(false, true, true), queue_count: 2 },
        QueueFamily { id: 1, capabilities: caps(true, true, true), queue_count: 0 },
        QueueFamily { id: 2, capabilities: caps(true, false, true), queue_count: 1 },
        QueueFamily { id: 3, capabilities: caps(true, true, true), queue_count: 4 },
    ];
    assert_eq!(select_queue_family(&families, caps(true, false, false)), Ok(2));
    assert_eq!(select_queue_family(&families, caps(true, true, false)), Ok(3));
    assert_eq!(select_queue_family(&families, caps(false, true, false)), Ok(0));
}

#[test]
fn no_capable_family_is_a_configuration_error() {
    let families = vec![QueueFamily { id: 0, capabilities: caps(false, false, true), queue_count: 1 }];
    assert_eq!(
        select_queue_family(&families, caps(true, false, false)),
        Err(ConfigurationError::NoCapableQueue)
    );
    assert_eq!(select_queue_family(&Vec::new(), caps(false, false, false)), Err(ConfigurationError::NoCapableQueue));
}

#[test]
fn sequence_buffer_length_is_count_times_element_size() {
    let mut res = Resources::new();
    let words: Vec<u32> = (0..64).collect();
    let id = res.create_buffer_from_words(BufferUsage::all(), &words).unwrap();
    assert_eq!(res.read_host_buffer(id).len(), 64 * 4);
    let bytes = res.create_buffer_from_bytes(BufferUsage::all(), vec![5u8; 128]);
    assert_eq!(res.read_host_buffer(bytes).len(), 128);
    let empty = res.create_buffer_from_words(BufferUsage::all(), &Vec::new()).unwrap();
    assert_eq!(res.read_host_buffer(empty).len(), 0);
    let one = res.create_buffer_from_word(BufferUsage::all(), 12);
    assert_eq!(res.read_host_buffer(one), &[12u8, 0, 0, 0][..]);
    assert_eq!(res.read_host_words(one), vec![12]);
}

#[test]
fn words_are_little_endian() {
    assert_eq!(encode_words(&vec![0x0403_0201, 0xff]), vec![1, 2, 3, 4, 0xff, 0, 0, 0]);
    assert_eq!(decode_words(&[1, 2, 3, 4, 9, 9]), vec![0x0403_0201]);
}

#[test]
fn host_writes_change_only_their_bytes() {
    let mut res = Resources::new();
    let id = res.create_buffer_from_bytes(BufferUsage::all(), vec![5u8; 128]);
    res.write_host_byte(id, 12, 83);
    let data = res.read_host_buffer(id);
    assert_eq!(data[12], 83);
    assert_eq!(data[11], 5);
    assert_eq!(data[13], 5);
    let s = res.create_buffer_from_words(BufferUsage::all(), &vec![5, 1]).unwrap();
    res.write_host_word(s, 0, 10);
    res.write_host_word(s, 1, 0);
    assert_eq!(res.read_host_words(s), vec![10, 0]);
}

#[test]
fn copy_then_wait_makes_destination_equal_source() {
    let mut res = Resources::new();
    let src_words: Vec<u32> = (0..64).collect();
    let src = res.create_buffer_from_words(BufferUsage::all(), &src_words).unwrap();
    let dst = res.create_buffer_from_words(BufferUsage::all(), &vec![0u32; 64]).unwrap();
    let mut rec = CommandRecorder::begin(graphics_queue());
    assert_eq!(rec.copy_buffer(&res, src, dst), Ok(()));
    let list = rec.finalize();
    assert_eq!(list.len(), 1);
    assert_eq!(list.get(0), Command::CopyBuffer { src, dst });
    let mut sub = Submission::submit(list);
    // nothing runs before the wait
    assert_eq!(res.read_host_words(dst), vec![0u32; 64]);
    assert_eq!(sub.signal_and_wait(&mut res, None), Ok(()));
    assert_eq!(res.read_host_buffer(src), res.read_host_buffer(dst));
    assert_eq!(res.read_host_words(dst), src_words);
}

#[test]
fn copy_with_mismatched_lengths_is_refused_at_recording() {
    let mut res = Resources::new();
    let src = res.create_buffer_from_bytes(BufferUsage::all(), vec![1u8; 16]);
    let dst = res.create_buffer_from_bytes(BufferUsage::all(), vec![0u8; 8]);
    let mut rec = CommandRecorder::begin(graphics_queue());
    assert_eq!(rec.copy_buffer(&res, src, dst), Err(RecordError::SizeMismatch));
    assert_eq!(rec.finalize().len(), 0);
}

#[test]
fn copy_errors() {
    let mut res = Resources::new();
    let a = res.create_buffer_from_bytes(BufferUsage::all(), vec![1u8; 8]);
    let no_src = res.create_buffer_from_bytes(
        BufferUsage { transfer_src: false, transfer_dst: true, storage: true },
        vec![1u8; 8],
    );
    let no_dst = res.create_buffer_from_bytes(BufferUsage::none(), vec![1u8; 8]);
    let mut rec = CommandRecorder::begin(graphics_queue());
    assert_eq!(rec.copy_buffer(&res, a, BufferId { index: 9 }), Err(RecordError::UnknownResource));
    assert_eq!(rec.copy_buffer(&res, no_src, a), Err(RecordError::Usage));
    assert_eq!(rec.copy_buffer(&res, a, no_dst), Err(RecordError::Usage));
    let mut none = CommandRecorder::begin(QueueFamily { id: 1, capabilities: caps(false, false, false), queue_count: 1 });
    assert_eq!(none.copy_buffer(&res, a, a), Err(RecordError::UnsupportedByQueue));
}

#[test]
fn dispatch_multiplies_each_word_by_twelve() {
    let mut res = Resources::new();
    let input: Vec<u32> = (0..65536).collect();
    let data = res.create_buffer_from_words(BufferUsage::all(), &input).unwrap();
    let pipeline = compile_pipeline(&multiply_program(12)).unwrap();
    let set = bind_descriptor_set(&pipeline, &vec![(0, data)]).unwrap();
    let mut rec = CommandRecorder::begin(graphics_queue());
    assert_eq!(rec.dispatch(&res, &pipeline, &set, 1024, 1, 1), Ok(()));
    run_list(&mut res, rec);
    let out = res.read_host_words(data);
    assert_eq!(out.len(), 65536);
    for (n, val) in out.iter().enumerate() {
        assert_eq!(*val, n as u32 * 12);
    }
}

#[test]
fn dispatch_covers_only_its_invocations_and_wraps() {
    let mut res = Resources::new();
    let data = res.create_buffer_from_words(BufferUsage::all(), &vec![3, 0x8000_0000, 7]).unwrap();
    let program = ComputeProgram { stage: ShaderStage::Compute, slots: vec![0], local_size_x: 2, kernel: Kernel::MultiplyWords { factor: 2 } };
    let pipeline = compile_pipeline(&program).unwrap();
    let set = bind_descriptor_set(&pipeline, &vec![(0, data)]).unwrap();
    let mut rec = CommandRecorder::begin(graphics_queue());
    rec.dispatch(&res, &pipeline, &set, 1, 1, 1).unwrap();
    rec.dispatch(&res, &pipeline, &set, 1, 0, 1).unwrap();
    run_list(&mut res, rec);
    assert_eq!(res.read_host_words(data), vec![6, 0, 7]);
}

#[test]
fn dispatch_errors() {
    let mut res = Resources::new();
    let data = res.create_buffer_from_words(BufferUsage::all(), &vec![1, 2]).unwrap();
    let plain = res.create_buffer_from_words(BufferUsage::none(), &vec![1, 2]).unwrap();
    let pipeline = compile_pipeline(&multiply_program(3)).unwrap();
    let set = bind_descriptor_set(&pipeline, &vec![(0, data)]).unwrap();
    let bad = bind_descriptor_set(&pipeline, &vec![(0, plain)]).unwrap();
    let missing = bind_descriptor_set(&pipeline, &vec![(0, BufferId { index: 7 })]).unwrap();
    let mut transfer_only = CommandRecorder::begin(QueueFamily { id: 2, capabilities: caps(false, false, true), queue_count: 1 });
    assert_eq!(transfer_only.dispatch(&res, &pipeline, &set, 1, 1, 1), Err(RecordError::UnsupportedByQueue));
    let mut rec = CommandRecorder::begin(graphics_queue());
    assert_eq!(rec.dispatch(&res, &pipeline, &bad, 1, 1, 1), Err(RecordError::BindingMismatch));
    assert_eq!(rec.dispatch(&res, &pipeline, &missing, 1, 1, 1), Err(RecordError::BindingMismatch));
    let other = compile_pipeline(&ComputeProgram { stage: ShaderStage::Compute, slots: vec![1], local_size_x: 1, kernel: Kernel::MultiplyWords { factor: 3 } }).unwrap();
    assert_eq!(rec.dispatch(&res, &other, &set, 1, 1, 1), Err(RecordError::BindingMismatch));
}

#[test]
fn pipeline_and_binding_errors() {
    let vertex = ComputeProgram { stage: ShaderStage::Vertex, slots: vec![0], local_size_x: 1, kernel: Kernel::MultiplyWords { factor: 1 } };
    assert!(matches!(compile_pipeline(&vertex), Err(PipelineError::ProgramIncompatible)));
    let no_slots = ComputeProgram { stage: ShaderStage::Compute, slots: vec![], local_size_x: 1, kernel: Kernel::MultiplyWords { factor: 1 } };
    assert!(matches!(compile_pipeline(&no_slots), Err(PipelineError::ProgramIncompatible)));
    let pipeline = compile_pipeline(&multiply_program(2)).unwrap();
    let b = BufferId { index: 0 };
    assert!(matches!(bind_descriptor_set(&pipeline, &vec![]), Err(BindError::SlotMismatch)));
    assert!(matches!(bind_descriptor_set(&pipeline, &vec![(1, b)]), Err(BindError::SlotMismatch)));
    assert!(matches!(bind_descriptor_set(&pipeline, &vec![(0, b), (1, b)]), Err(BindError::SlotMismatch)));
    let set = bind_descriptor_set(&pipeline, &vec![(0, b)]).unwrap();
    assert_eq!(set.slots, vec![0]);
    assert_eq!(set.buffers, vec![b]);
}

#[test]
fn clear_then_copy_image_gives_color_per_pixel() {
    let mut res = Resources::new();
    let queue = graphics_queue();
    let image = res.create_image(1024, 1024, Format::R8G8B8A8Unorm, Some(queue.id)).unwrap();
    let buf = res.create_zeroed_buffer(BufferUsage::all(), 1024 * 1024 * 4);
    let mut rec = CommandRecorder::begin(queue);
    let magenta = Rgba8 { r: 255, g: 0, b: 255, a: 255 };
    assert_eq!(rec.clear_image(&res, image, magenta), Ok(()));
    assert_eq!(rec.copy_image_to_buffer(&res, image, buf), Ok(()));
    run_list(&mut res, rec);
    let out = res.read_host_buffer(buf);
    assert_eq!(out.len(), 1024 * 1024 * 4);
    for px in out.chunks(4) {
        assert_eq!(px, &[255u8, 0, 255, 255][..]);
    }
}

#[test]
fn clear_converts_to_each_format() {
    assert_eq!(encode_pixel(Format::B8G8R8A8Unorm, Rgba8 { r: 1, g: 2, b: 3, a: 4 }), vec![3, 2, 1, 4]);
    assert_eq!(encode_pixel(Format::R8Unorm, Rgba8 { r: 1, g: 2, b: 3, a: 4 }), vec![1]);
    let mut res = Resources::new();
    let image = res.create_image(2, 1, Format::B8G8R8A8Unorm, None).unwrap();
    let buf = res.create_buffer_from_bytes(BufferUsage::all(), vec![9u8; 10]);
    let mut rec = CommandRecorder::begin(graphics_queue());
    rec.clear_image(&res, image, Rgba8 { r: 10, g: 20, b: 30, a: 40 }).unwrap();
    rec.copy_image_to_buffer(&res, image, buf).unwrap();
    run_list(&mut res, rec);
    assert_eq!(res.read_host_buffer(buf), &[30u8, 20, 10, 40, 30, 20, 10, 40, 9, 9][..]);
}

#[test]
fn image_errors() {
    let mut res = Resources::new();
    assert_eq!(res.create_image(0, 4, Format::R8Unorm, None), Err(AllocationError::OutOfMemory));
    let image = res.create_image(4, 4, Format::R8G8B8A8Unorm, Some(5)).unwrap();
    let small = res.create_buffer_from_bytes(BufferUsage::all(), vec![0u8; 63]);
    let fits = res.create_buffer_from_bytes(BufferUsage::all(), vec![0u8; 64]);
    let mut rec = CommandRecorder::begin(graphics_queue());
    assert_eq!(rec.clear_image(&res, ImageId { index: 3 }, Rgba8 { r: 0, g: 0, b: 0, a: 0 }), Err(RecordError::UnknownResource));
    assert_eq!(rec.clear_image(&res, image, Rgba8 { r: 0, g: 0, b: 0, a: 0 }), Err(RecordError::Usage));
    assert_eq!(rec.copy_image_to_buffer(&res, image, small), Err(RecordError::SizeMismatch));
    assert_eq!(rec.copy_image_to_buffer(&res, image, fits), Err(RecordError::Usage));
    let mut transfer_only = CommandRecorder::begin(QueueFamily { id: 5, capabilities: caps(false, false, true), queue_count: 1 });
    assert_eq!(transfer_only.clear_image(&res, image, Rgba8 { r: 0, g: 0, b: 0, a: 0 }), Err(RecordError::UnsupportedByQueue));
    assert_eq!(transfer_only.copy_image_to_buffer(&res, image, fits), Ok(()));
}

#[test]
fn short_wait_times_out_then_completes() {
    let mut res = Resources::new();
    let data = res.create_buffer_from_words(BufferUsage::all(), &vec![1, 2, 3]).unwrap();
    let pipeline = compile_pipeline(&multiply_program(5)).unwrap();
    let set = bind_descriptor_set(&pipeline, &vec![(0, data)]).unwrap();
    let mut rec = CommandRecorder::begin(graphics_queue());
    rec.dispatch(&res, &pipeline, &set, 1, 1, 1).unwrap();
    rec.dispatch(&res, &pipeline, &set, 1, 1, 1).unwrap();
    let mut sub = Submission::submit(rec.finalize());
    assert_eq!(sub.signal_and_wait(&mut res, Some(0)), Err(WaitError::TimedOut));
    assert_eq!(sub.state(), TokenState::Submitted);
    assert_eq!(sub.signal_and_wait(&mut res, Some(1)), Err(WaitError::TimedOut));
    assert_eq!(res.read_host_words(data), vec![1, 2, 3]);
    assert_eq!(sub.signal_and_wait(&mut res, Some(2)), Ok(()));
    assert_eq!(sub.state(), TokenState::Completed);
    assert_eq!(res.read_host_words(data), vec![25, 50, 75]);
    // waiting again does not run the list again
    assert_eq!(sub.signal_and_wait(&mut res, None), Ok(()));
    assert_eq!(res.read_host_words(data), vec![25, 50, 75]);
}

#[test]
fn token_state_machine() {
    let mut t = SubmissionToken::submitted();
    assert_eq!(t.on_wait(WaitOutcome::TimedOut), Err(WaitError::TimedOut));
    assert_eq!(t.state(), TokenState::Submitted);
    assert_eq!(t.on_wait(WaitOutcome::Signaled), Ok(()));
    assert_eq!(t.state(), TokenState::Completed);
    assert_eq!(t.on_wait(WaitOutcome::DeviceLost), Ok(()));
    assert_eq!(t.state(), TokenState::Completed);
    let mut lost = SubmissionToken::submitted();
    assert_eq!(lost.on_wait(WaitOutcome::DeviceLost), Err(WaitError::DeviceLost));
    assert_eq!(lost.state(), TokenState::Failed);
    assert_eq!(lost.on_wait(WaitOutcome::Signaled), Err(WaitError::DeviceLost));
    assert_eq!(lost.state(), TokenState::Failed);
}

#[test]
fn rebinding_does_not_change_a_finalized_list() {
    let mut res = Resources::new();
    let first = res.create_buffer_from_words(BufferUsage::all(), &vec![1, 2]).unwrap();
    let second = res.create_buffer_from_words(BufferUsage::all(), &vec![3, 4]).unwrap();
    let pipeline = compile_pipeline(&multiply_program(10)).unwrap();
    let set = bind_descriptor_set(&pipeline, &vec![(0, first)]).unwrap();
    let mut rec = CommandRecorder::begin(graphics_queue());
    rec.dispatch(&res, &pipeline, &set, 1, 1, 1).unwrap();
    let list = rec.finalize();
    let _later = bind_descriptor_set(&pipeline, &vec![(0, second)]).unwrap();
    assert_eq!(list.get(0), Command::Dispatch { kernel: Kernel::MultiplyWords { factor: 10 }, target: first, invocations: 64 });
    let mut sub = Submission::submit(list);
    sub.signal_and_wait(&mut res, None).unwrap();
    assert_eq!(res.read_host_words(first), vec![10, 20]);
    assert_eq!(res.read_host_words(second), vec![3, 4]);
}

#[test]
fn commands_with_missing_resources_change_nothing() {
    let mut res = Resources::new();
    let a = res.create_buffer_from_bytes(BufferUsage::all(), vec![1u8, 2]);
    apply_command(&mut res, Command::CopyBuffer { src: a, dst: BufferId { index: 4 } });
    apply_command(&mut res, Command::CopyImageToBuffer { image: ImageId { index: 0 }, buffer: a });
    assert_eq!(res.read_host_buffer(a), &[1u8, 2][..]);
}
