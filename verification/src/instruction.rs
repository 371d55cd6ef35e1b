//! What a renderer hands to the drawing surface.
//!
//! A frame is a sequence of batches, and a batch a sequence of instructions
//! that the surface takes as one. The draw commands themselves are those of
//! `oxygengine_composite_renderer`; the compositor passes them on unread.

use oxygengine_composite_renderer::composite_renderer::Command;
use oxygengine_composite_renderer::math::{Color, Mat2d};
use vstd::prelude::*;

verus! {

/// A draw command of the surface.
#[verifier::external_type_specification]
#[verifier::external_body]
pub struct ExCommand<'a>(oxygengine_composite_renderer::composite_renderer::Command<'a>);

/// One step of a batch.
#[derive(Debug)]
pub enum Instruction {
    /// Fill the whole viewport with a colour.
    Clear(Color),
    /// Save the surface's drawing state.
    Store,
    /// Push a transform onto the surface.
    Transform(Mat2d),
    /// Run a caller's draw command.
    Draw(Command<'static>),
    /// Restore the drawing state that was saved last.
    Restore,
}

/// Calls the `Clone` of `Command`, which `derive` wrote: the copy equals the
/// command.
#[verifier::external_body]
pub(crate) fn duplicate(command: &Command<'static>) -> (r: Command<'static>)
    ensures
        r == *command,
{
    command.clone()
}

/// The commands as draw instructions, one for one.
pub open spec fn draws(commands: Seq<Command<'static>>) -> Seq<Instruction> {
    commands.map_values(|command: Command<'static>| Instruction::Draw(command))
}

/// The batch that draws the commands under a transform: save the state,
/// push the transform, draw, restore the state.
pub open spec fn layer(transform: Mat2d, commands: Seq<Command<'static>>) -> Seq<Instruction> {
    seq![Instruction::Store, Instruction::Transform(transform)] + draws(commands)
        + seq![Instruction::Restore]
}

/// The batches of a frame as sequences.
pub open spec fn batches(frame: Vec<Vec<Instruction>>) -> Seq<Seq<Instruction>> {
    frame@.map_values(|batch: Vec<Instruction>| batch@)
}

/// Builds the batch that draws the commands under a transform.
pub fn make_layer(transform: Mat2d, commands: &Vec<Command<'static>>) -> (r: Vec<Instruction>)
    ensures
        r@ == layer(transform, commands@),
{
    let mut batch: Vec<Instruction> = Vec::new();
    batch.push(Instruction::Store);
    batch.push(Instruction::Transform(transform));
    let mut i: usize = 0;
    while i < commands.len()
        invariant
            i <= commands.len(),
            batch@ == seq![Instruction::Store, Instruction::Transform(transform)] + draws(
                commands@.take(i as int),
            ),
        decreases commands.len() - i,
    {
        batch.push(Instruction::Draw(duplicate(&commands[i])));
        proof {
            assert(commands@.take(i + 1) =~= commands@.take(i as int).push(commands@[i as int]));
            assert(draws(commands@.take(i + 1)) =~= draws(commands@.take(i as int)).push(
                Instruction::Draw(commands@[i as int]),
            ));
        }
        i += 1;
    }
    batch.push(Instruction::Restore);
    proof {
        assert(commands@.take(i as int) =~= commands@);
        assert(batch@ =~= layer(transform, commands@));
    }
    batch
}

} // verus!
