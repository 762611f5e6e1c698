//! The lock-free relay between the audio thread and the display thread.
//!
//! A relay carries frames of levels. Its writer end never blocks and never
//! allocates, and its reader end always sees the frame that was completed
//! last. The three slots and their rotation belong to the `triple_buffer`
//! crate; this module states what the two ends may rely on.

use vstd::prelude::*;

verus! {

/// The writer end of `triple_buffer`, opaque to the verifier.
#[verifier::external_type_specification]
#[verifier::external_body]
#[verifier::reject_recursive_types(T)]
pub struct ExInput<T: Send>(triple_buffer::Input<T>);

/// The reader end of `triple_buffer`, opaque to the verifier.
#[verifier::external_type_specification]
#[verifier::external_body]
#[verifier::reject_recursive_types(T)]
pub struct ExOutput<T: Send>(triple_buffer::Output<T>);

/// The frame in the slot that the reader end currently owns.
pub uninterp spec fn reader_frame(output: triple_buffer::Output<Vec<i32>>) -> Seq<i32>;

/// `triple_buffer::triple_buffer`: makes a relay whose three slots all hold a
/// copy of `initial`, so the reader's slot holds it too.
#[verifier::external_body]
pub(crate) fn relay_open(initial: &Vec<i32>) -> (ends: (
    triple_buffer::Input<Vec<i32>>,
    triple_buffer::Output<Vec<i32>>,
))
    ensures
        reader_frame(ends.1) == initial@,
{
    triple_buffer::triple_buffer(initial)
}

/// `triple_buffer::Input::input_buffer_mut`: gives the writer's own slot,
/// into which `frame` is copied; the slot keeps its allocation. Nothing that
/// the writer end can observe later is claimed, since the slot goes to the
/// reader when it is offered.
#[verifier::external_body]
pub(crate) fn relay_stage(input: &mut triple_buffer::Input<Vec<i32>>, frame: &Vec<i32>) {
    input.input_buffer_mut().clone_from(frame)
}

/// `triple_buffer::Input::publish`: offers the writer's slot to the reader
/// and gives the writer the slot that was offered before. Returns whether a
/// frame that the reader had not fetched was replaced; nothing is claimed of
/// that, as it depends on the reader's pace.
#[verifier::external_body]
pub(crate) fn relay_publish(input: &mut triple_buffer::Input<Vec<i32>>) -> (replaced: bool) {
    input.publish()
}

/// `triple_buffer::Output::update`: takes over the slot that the writer
/// offered last, if it offered one since the last call. When it reports that
/// nothing was taken over, the reader's slot is the one it had.
#[verifier::external_body]
pub(crate) fn relay_update(output: &mut triple_buffer::Output<Vec<i32>>) -> (fresh: bool)
    ensures
        !fresh ==> reader_frame(*final(output)) == reader_frame(*old(output)),
{
    output.update()
}

/// `triple_buffer::Output::output_buffer`: the frame in the reader's slot.
#[verifier::external_body]
pub(crate) fn relay_peek(output: &triple_buffer::Output<Vec<i32>>) -> (frame: &Vec<i32>)
    ensures
        frame@ == reader_frame(*output),
{
    output.output_buffer()
}

} // verus!
