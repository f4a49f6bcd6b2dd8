//! Picking mesh handles for the balls and sticks of a ball-stick structure.
//!
//! A spawner holds a stack of ball meshes and a stack of stick meshes and hands
//! out, for the `i`-th ball or stick, the entry at `i` modulo the stack's size.
use vstd::prelude::*;

verus! {

/// The entry that an index picks from a stack: indices wrap around; an empty stack gives none.
pub open spec fn pick_spec<T>(stack: Seq<T>, index: usize) -> Option<T> {
    if stack.len() == 0 {
        None
    } else {
        Some(stack[index as int % stack.len() as int])
    }
}

/// The mesh handle stacks of a ball-stick spawner; `B` and `S` are the handle types.
pub struct MeshHandleStackSpawner<B, S> {
    pub ball_mesh_handle_stack: Vec<B>,
    pub stick_mesh_handle_stack: Vec<S>,
}

fn pick<T>(stack: &Vec<T>, index: usize) -> (r: Option<&T>)
    ensures
        r matches Some(x) ==> pick_spec(stack@, index) == Some(*x),
        r is None <==> pick_spec(stack@, index) is None,
{
    if stack.len() == 0 {
        return None;
    }
    Some(&stack[index % stack.len()])
}

impl<B, S> MeshHandleStackSpawner<B, S> {
    /// A spawner with empty stacks.
    pub fn new() -> (r: Self)
        ensures
            r.ball_mesh_handle_stack@.len() == 0,
            r.stick_mesh_handle_stack@.len() == 0,
    {
        MeshHandleStackSpawner { ball_mesh_handle_stack: Vec::new(), stick_mesh_handle_stack: Vec::new() }
    }

    /// The spawner with its ball stack replaced.
    pub fn with_ball_mesh_handle_stack(self, ball_mesh_handle_stack: Vec<B>) -> (r: Self)
        ensures
            r.ball_mesh_handle_stack@ == ball_mesh_handle_stack@,
            r.stick_mesh_handle_stack@ == self.stick_mesh_handle_stack@,
    {
        MeshHandleStackSpawner { ball_mesh_handle_stack, stick_mesh_handle_stack: self.stick_mesh_handle_stack }
    }

    /// The spawner with its stick stack replaced.
    pub fn with_stick_mesh_handle_stack(self, stick_mesh_handle_stack: Vec<S>) -> (r: Self)
        ensures
            r.ball_mesh_handle_stack@ == self.ball_mesh_handle_stack@,
            r.stick_mesh_handle_stack@ == stick_mesh_handle_stack@,
    {
        MeshHandleStackSpawner { ball_mesh_handle_stack: self.ball_mesh_handle_stack, stick_mesh_handle_stack }
    }

    /// The ball mesh for the `index`-th ball, if the ball stack is not empty.
    pub fn get_ball_for_index(&self, index: usize) -> (r: Option<&B>)
        ensures
            r matches Some(x) ==> pick_spec(self.ball_mesh_handle_stack@, index) == Some(*x),
            r is None <==> self.ball_mesh_handle_stack@.len() == 0,
    {
        pick(&self.ball_mesh_handle_stack, index)
    }

    /// The stick mesh for the `index`-th stick, if the stick stack is not empty.
    pub fn get_stick_for_index(&self, index: usize) -> (r: Option<&S>)
        ensures
            r matches Some(x) ==> pick_spec(self.stick_mesh_handle_stack@, index) == Some(*x),
            r is None <==> self.stick_mesh_handle_stack@.len() == 0,
    {
        pick(&self.stick_mesh_handle_stack, index)
    }
}

/// An index within a non-empty stack picks the entry at that index, and every index picks
/// some entry of the stack.
pub proof fn lemma_pick_in_stack<T>(stack: Seq<T>, index: usize)
    requires
        stack.len() > 0,
    ensures
        index < stack.len() ==> pick_spec(stack, index) == Some(stack[index as int]),
        exists|k: int| 0 <= k < stack.len() && pick_spec(stack, index) == Some(stack[k]),
{
    let n = stack.len() as int;
    let k = index as int % n;
    assert(0 <= k < n);
    if index < stack.len() {
        vstd::arithmetic::div_mod::lemma_small_mod(index as nat, n as nat);
    }
}

/// Indices that differ by the size of a non-empty stack pick the same entry.
pub proof fn lemma_pick_wraps<T>(stack: Seq<T>, index: usize)
    requires
        stack.len() > 0,
        index + stack.len() <= usize::MAX,
    ensures
        pick_spec(stack, (index + stack.len()) as usize) == pick_spec(stack, index),
{
    let n = stack.len() as int;
    assert((index + n) % n == index as int % n) by {
        vstd::arithmetic::div_mod::lemma_mod_add_multiples_vanish(index as int, n);
    }
}

} // verus!
