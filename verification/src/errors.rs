use vstd::prelude::*;

verus! {

/// Every failure that aborts a rendering run. There is no retry anywhere:
/// each of these is fatal to the whole run.
#[derive(Debug, Clone)]
pub enum RenderError {
    /// A filesystem operation failed (missing image source, unwritable
    /// destination directory); the payload is the operation's message.
    Io(String),
    /// Re-serializing the rewritten event stream failed: the intermediate
    /// state is corrupted. Serializing into an in-memory text never fails,
    /// so nothing reachable produces this.
    Serialize,
    /// The template holds no content-insertion marker.
    MarkerMissing,
    /// A version string handed over by the host could not be parsed;
    /// the payload is the parser's message.
    Version(String),
    /// The external LaTeX compiler exited with the given non-zero status.
    CompilerExit(i32),
}

} // verus!
