use vstd::prelude::*;
use crate::resource::BufferId;

verus! {

/// The stage a compiled program was built for.
#[derive(Clone, Copy, Debug, PartialEq, Eq, Structural)]
pub enum ShaderStage {
    Vertex,
    Fragment,
    Compute,
}

/// What a compute program does to the buffer bound at its first slot, each
/// invocation handling the 32-bit word at its x index.
#[derive(Clone, Copy, Debug, PartialEq, Eq, Structural)]
pub enum Kernel {
    /// Multiplies the word by `factor`, wrapping on overflow.
    MultiplyWords { factor: u32 },
}

/// A program as the shader compiler hands it over: its stage, the slots of
/// descriptor set 0 it declares, in order, its work-group width and its kernel.
pub struct ComputeProgram {
    pub stage: ShaderStage,
    pub slots: Vec<u32>,
    pub local_size_x: u32,
    pub kernel: Kernel,
}

/// A compute pipeline: the layout derived from the program's declared slots.
pub struct Pipeline {
    pub slots: Vec<u32>,
    pub local_size_x: u32,
    pub kernel: Kernel,
}

/// A fixed binding of buffers to a pipeline layout's slots. It is a snapshot:
/// nothing changes it once built.
pub struct DescriptorSet {
    pub slots: Vec<u32>,
    pub buffers: Vec<BufferId>,
}

#[derive(Clone, Copy, Debug, PartialEq, Eq, Structural)]
pub enum PipelineError {
    ProgramIncompatible,
}

#[derive(Clone, Copy, Debug, PartialEq, Eq, Structural)]
pub enum BindError {
    SlotMismatch,
}

/// A program is usable for a compute pipeline when it has a compute entry
/// point and declares the slot its kernel reads.
pub open spec fn program_compatible(stage: ShaderStage, slots: Seq<u32>) -> bool {
    stage == ShaderStage::Compute && slots.len() > 0
}

fn copy_slots(v: &Vec<u32>) -> (r: Vec<u32>)
    ensures
        r@ == v@,
{
    let mut out: Vec<u32> = Vec::new();
    let mut i: usize = 0;
    while i < v.len()
        invariant
            i <= v@.len(),
            out@ == v@.take(i as int),
        decreases v@.len() - i,
    {
        out.push(v[i]);
        i = i + 1;
        assert(out@ =~= v@.take(i as int));
    }
    assert(v@.take(v@.len() as int) =~= v@);
    out
}

/// Builds a compute pipeline whose layout is the program's declared slots.
pub fn compile_pipeline(program: &ComputeProgram) -> (r: Result<Pipeline, PipelineError>)
    ensures
        match r {
            Ok(p) => {
                &&& program_compatible(program.stage, program.slots@)
                &&& p.slots@ == program.slots@
                &&& p.local_size_x == program.local_size_x
                &&& p.kernel == program.kernel
            },
            Err(_) => !program_compatible(program.stage, program.slots@),
        },
{
    if program.stage != ShaderStage::Compute || program.slots.len() == 0 {
        return Err(PipelineError::ProgramIncompatible);
    }
    Ok(
        Pipeline {
            slots: copy_slots(&program.slots),
            local_size_x: program.local_size_x,
            kernel: program.kernel,
        },
    )
}

/// The slots named by an ordered list of bindings.
pub open spec fn binding_slots(bindings: Seq<(u32, BufferId)>) -> Seq<u32> {
    bindings.map_values(|b: (u32, BufferId)| b.0)
}

/// The buffers named by an ordered list of bindings.
pub open spec fn binding_buffers(bindings: Seq<(u32, BufferId)>) -> Seq<BufferId> {
    bindings.map_values(|b: (u32, BufferId)| b.1)
}

/// Binds one buffer to each slot of the pipeline's layout. The bindings must
/// name exactly the layout's slots, in its order: a missing, extra or
/// misplaced slot is refused.
pub fn bind_descriptor_set(pipeline: &Pipeline, bindings: &Vec<(u32, BufferId)>) -> (r: Result<
    DescriptorSet,
    BindError,
>)
    ensures
        match r {
            Ok(s) => {
                &&& binding_slots(bindings@) == pipeline.slots@
                &&& s.slots@ == pipeline.slots@
                &&& s.buffers@ == binding_buffers(bindings@)
            },
            Err(_) => binding_slots(bindings@) != pipeline.slots@,
        },
{
    if bindings.len() != pipeline.slots.len() {
        assert(binding_slots(bindings@).len() != pipeline.slots@.len());
        return Err(BindError::SlotMismatch);
    }
    let mut buffers: Vec<BufferId> = Vec::new();
    let mut i: usize = 0;
    while i < bindings.len()
        invariant
            i <= bindings@.len(),
            bindings@.len() == pipeline.slots@.len(),
            buffers@ == binding_buffers(bindings@).take(i as int),
            forall|j: int| 0 <= j < i ==> #[trigger] bindings@[j].0 == pipeline.slots@[j],
        decreases bindings@.len() - i,
    {
        let (slot, buffer) = bindings[i];
        if slot != pipeline.slots[i] {
            assert(binding_slots(bindings@)[i as int] != pipeline.slots@[i as int]);
            return Err(BindError::SlotMismatch);
        }
        buffers.push(buffer);
        i = i + 1;
        assert(buffers@ =~= binding_buffers(bindings@).take(i as int));
    }
    assert(binding_slots(bindings@) =~= pipeline.slots@);
    assert(binding_buffers(bindings@).take(bindings@.len() as int) =~= binding_buffers(bindings@));
    Ok(DescriptorSet { slots: copy_slots(&pipeline.slots), buffers })
}

} // verus!
