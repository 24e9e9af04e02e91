//! Input checks of the per-tensor merge operations, decided on the lengths
//! of the parents' tensors before any arithmetic: which inputs a merge
//! accepts, and which parent a cross-architecture merge copies.
use vstd::prelude::*;
use crate::slots::HeteroMode;

verus! {

/// Why a merge refused its inputs.
#[derive(Debug, Clone, Copy, PartialEq, Eq)]
pub enum MergeInputError {
    /// No parent provided the tensor.
    NoInputs,
    /// The inputs differ in length, or differ from the tensor's size.
    LengthMismatch,
    /// A merge over all parents got inputs from only some of them.
    ParentCount { held: usize, expected: usize },
}

/// All lengths equal the tensor's element count.
pub open spec fn all_len(lens: Seq<usize>, n: usize) -> bool {
    forall|i: int| 0 <= i < lens.len() ==> #[trigger] lens[i] == n
}

/// Some input, all of the tensor's length (averaging merges).
pub fn check_uniform(input_lens: &[usize], num_elements: usize) -> (r: Result<(), MergeInputError>)
    ensures
        input_lens@.len() == 0 ==> r == Err::<(), MergeInputError>(MergeInputError::NoInputs),
        input_lens@.len() > 0 && !all_len(input_lens@, num_elements) ==> r == Err::<(), MergeInputError>(
            MergeInputError::LengthMismatch,
        ),
        r is Ok <==> (input_lens@.len() > 0 && all_len(input_lens@, num_elements)),
{
    if input_lens.len() == 0 {
        return Err(MergeInputError::NoInputs);
    }
    let n = input_lens[0];
    let mut i: usize = 0;
    while i < input_lens.len()
        invariant
            i <= input_lens@.len(),
            n == input_lens@[0],
            forall|k: int| 0 <= k < i ==> #[trigger] input_lens@[k] == n,
        decreases input_lens.len() - i,
    {
        if input_lens[i] != n {
            return Err(MergeInputError::LengthMismatch);
        }
        i = i + 1;
    }
    if n != num_elements {
        assert(input_lens@[0] != num_elements);
        return Err(MergeInputError::LengthMismatch);
    }
    Ok(())
}

/// Inputs of a heterogeneous merge: some input; under intersection one per
/// parent, all of one length; under union all of the tensor's length.
pub open spec fn hetero_inputs_ok(mode: HeteroMode, n_parents: usize, lens: Seq<usize>, n: usize) -> bool {
    lens.len() > 0 && match mode {
        HeteroMode::Intersection => lens.len() == n_parents && all_len(lens, lens[0]),
        HeteroMode::Union => all_len(lens, n),
    }
}

/// Checks the inputs of a heterogeneous merge of `n_parents` parents.
pub fn check_hetero(mode: HeteroMode, n_parents: usize, input_lens: &[usize], num_elements: usize) -> (r: Result<
    (),
    MergeInputError,
>)
    ensures
        r is Ok <==> hetero_inputs_ok(mode, n_parents, input_lens@, num_elements),
        input_lens@.len() == 0 ==> r == Err::<(), MergeInputError>(MergeInputError::NoInputs),
        input_lens@.len() > 0 && mode == HeteroMode::Intersection && input_lens@.len() != n_parents ==> r == Err::<
            (),
            MergeInputError,
        >(MergeInputError::ParentCount { held: input_lens@.len() as usize, expected: n_parents }),
{
    if input_lens.len() == 0 {
        return Err(MergeInputError::NoInputs);
    }
    match mode {
        HeteroMode::Intersection => {
            if input_lens.len() != n_parents {
                return Err(MergeInputError::ParentCount { held: input_lens.len(), expected: n_parents });
            }
            check_uniform(input_lens, input_lens[0])
        },
        HeteroMode::Union => check_uniform(input_lens, num_elements),
    }
}

/// What a cross-architecture merge does with a tensor.
#[derive(Debug, Clone, Copy, PartialEq, Eq, Structural)]
pub enum ChimeraRoute {
    /// Copy parent 0 without scoring (one parent, or mismatched shapes).
    Transplant,
    /// Score the first two parents and decide.
    Score,
}

/// Route of a cross-architecture merge: parent 0 is copied when it is the
/// only parent or its length differs from parent 1 (it must then have the
/// tensor's length); otherwise the pair is scored.
pub fn chimera_route(input_lens: &[usize], num_elements: usize) -> (r: Result<ChimeraRoute, MergeInputError>)
    ensures
        input_lens@.len() == 0 ==> r == Err::<ChimeraRoute, MergeInputError>(MergeInputError::NoInputs),
        input_lens@.len() > 0 && (input_lens@.len() == 1 || input_lens@[0] != input_lens@[1]) ==> r == if input_lens@[0]
            == num_elements {
            Ok::<ChimeraRoute, MergeInputError>(ChimeraRoute::Transplant)
        } else {
            Err(MergeInputError::LengthMismatch)
        },
        input_lens@.len() > 1 && input_lens@[0] == input_lens@[1] ==> r == Ok::<ChimeraRoute, MergeInputError>(
            ChimeraRoute::Score,
        ),
{
    if input_lens.len() == 0 {
        return Err(MergeInputError::NoInputs);
    }
    if input_lens.len() == 1 || input_lens[0] != input_lens[1] {
        if input_lens[0] != num_elements {
            return Err(MergeInputError::LengthMismatch);
        }
        return Ok(ChimeraRoute::Transplant);
    }
    Ok(ChimeraRoute::Score)
}

/// Inputs of an identity copy of parent 0: some input, and parent 0 has
/// the tensor's length.
pub fn check_first_parent(input_lens: &[usize], num_elements: usize) -> (r: Result<(), MergeInputError>)
    ensures
        input_lens@.len() == 0 ==> r == Err::<(), MergeInputError>(MergeInputError::NoInputs),
        input_lens@.len() > 0 ==> r == if input_lens@[0] == num_elements {
            Ok::<(), MergeInputError>(())
        } else {
            Err(MergeInputError::LengthMismatch)
        },
{
    if input_lens.len() == 0 {
        return Err(MergeInputError::NoInputs);
    }
    if input_lens[0] != num_elements {
        return Err(MergeInputError::LengthMismatch);
    }
    Ok(())
}

} // verus!
