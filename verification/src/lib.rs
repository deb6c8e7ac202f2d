/// Repository URLs and their normal form, clone and checkout plans, and the
/// tag-matching heuristic.
pub mod git;
/// ASCII-whitespace canonicalization of file contents.
pub mod io;
/// Per-path content digest maps, their comparison, and reading archives.
pub mod package;
/// The per-package verification pipeline: a state machine from outside
/// results to actions and diagnostics, plus grouping by repository.
pub mod pipeline;
/// Where registry archives are downloaded from and cached.
pub mod registry;
/// Choosing the pinned toolchain.
pub mod rustup;
/// Verified string and character-sequence helpers.
pub mod text;
/// Semantic versions as plain values.
pub mod version;
