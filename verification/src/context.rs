//! The sticky defaults for organization, workspace and environment.
//!
//! The context is a default only: a flag or an environment variable goes before it.

use vstd::prelude::*;
use vstd::slice::slice_to_vec;

use crate::files::{step_done, Disk, FileStep, FileStepView};
use crate::paths::{file_in, join_path, PathStyle};

verus! {

/// The stored defaults.
#[derive(Debug, PartialEq, Eq)]
pub struct Context {
    pub org: Option<String>,
    pub workspace: Option<String>,
    pub env: Option<String>,
}

impl Clone for Context {
    fn clone(&self) -> (r: Self)
        ensures
            r == *self,
    {
        Context {
            org: self.org.clone(),
            workspace: self.workspace.clone(),
            env: self.env.clone(),
        }
    }
}

/// The context with no defaults.
pub open spec fn empty_context() -> Context {
    Context { org: None, workspace: None, env: None }
}

impl Default for Context {
    fn default() -> (r: Self)
        ensures
            r == empty_context(),
    {
        Context { org: None, workspace: None, env: None }
    }
}

/// The path of the context in a state directory.
pub open spec fn context_file(state_dir: Seq<u8>, style: PathStyle) -> Seq<u8> {
    file_in(state_dir, "context.json"@, style)
}

/// The path of the file that holds the context.
pub fn path(state_dir: &[u8], style: PathStyle) -> (r: Vec<u8>)
    ensures
        r@ == context_file(state_dir@, style),
{
    join_path(state_dir, "context.json", style)
}

/// The context, given what was read.
pub open spec fn loaded(stored: Option<Context>) -> Context {
    match stored {
        Some(ctx) => ctx,
        None => empty_context(),
    }
}

/// The context, given what could be read of the file that holds it. Where nothing could, the
/// context is empty; that is no error.
pub fn load(stored: Option<Context>) -> (r: Context)
    ensures
        r == loaded(stored),
{
    match stored {
        Some(ctx) => ctx,
        None => Context::default(),
    }
}

/// The step that writes the context, given its bytes.
pub open spec fn save_step(state_dir: Seq<u8>, bytes: Seq<u8>, style: PathStyle) -> FileStepView {
    FileStepView::Replace { path: context_file(state_dir, style), data: bytes }
}

/// The step that writes the context, given its bytes.
pub fn save(state_dir: &[u8], bytes: &[u8], style: PathStyle) -> (r: FileStep)
    ensures
        r@ == save_step(state_dir@, bytes@, style),
{
    FileStep::Replace { path: path(state_dir, style), data: slice_to_vec(bytes) }
}

/// The context that is loaded from a disk, where `read` reads bytes.
pub open spec fn load_from(
    disk: Disk,
    state_dir: Seq<u8>,
    style: PathStyle,
    read: spec_fn(Seq<u8>) -> Option<Context>,
) -> Context {
    let file = context_file(state_dir, style);
    loaded(
        if disk.dom().contains(file) {
            read(disk[file].data)
        } else {
            None
        },
    )
}

/// The last save wins whole: of two contexts saved one after the other the second is loaded, with
/// nothing of the first in it, whatever was on disk before. Here `write` gives the bytes of a context
/// and `read` reads them again. A save changes no other file.
pub proof fn law_the_last_save_wins(
    disk: Disk,
    state_dir: Seq<u8>,
    style: PathStyle,
    write: spec_fn(Context) -> Seq<u8>,
    read: spec_fn(Seq<u8>) -> Option<Context>,
    c1: Context,
    c2: Context,
)
    requires
        read(write(c2)) == Some(c2),
    ensures
        ({
            let once = step_done(disk, save_step(state_dir, write(c1), style));
            let twice = step_done(once, save_step(state_dir, write(c2), style));
            &&& load_from(twice, state_dir, style, read) == c2
            &&& forall|p: Seq<u8>|
                p != context_file(state_dir, style) ==> (twice.dom().contains(p)
                    <==> disk.dom().contains(p)) && (disk.dom().contains(p)
                    ==> #[trigger] twice[p] == disk[p])
        }),
{
}

/// A context that was never saved, or whose file cannot be read, is empty.
pub proof fn law_no_context_is_the_empty_context(
    disk: Disk,
    state_dir: Seq<u8>,
    style: PathStyle,
    read: spec_fn(Seq<u8>) -> Option<Context>,
)
    requires
        disk.dom().contains(context_file(state_dir, style)) ==> read(
            disk[context_file(state_dir, style)].data,
        ) is None,
    ensures
        load_from(disk, state_dir, style, read) == empty_context(),
{
}

/// A context is loaded as it was read, whichever of its defaults it has, and is kept in one file of the
/// state directory.
pub proof fn law_contexts_are_loaded_whole(ctx: Context, state_dir: Seq<u8>, style: PathStyle)
    ensures
        loaded(Some(ctx)) == ctx,
        loaded(None).org is None,
        loaded(None).workspace is None,
        loaded(None).env is None,
        context_file(state_dir, style) == file_in(state_dir, "context.json"@, style),
{
}

} // verus!
