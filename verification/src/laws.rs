//! The workflow laws: what the canonical create → write → publish →
//! activate sequence guarantees, proved once and for all states over the
//! protocol's effect functions.

use vstd::prelude::*;

use crate::model::{
    CodebaseView, RepoView, activate_effect, create_effect, deactivate_effect, fresh_codebase,
    publish_effect, read_result, write_effect,
};

verus! {

/// A codebase is well formed when its staged edits all name files that are
/// among its files.
pub open spec fn staged_within_files(cb: CodebaseView) -> bool {
    forall|f: Seq<char>| cb.edit_files.contains(f) ==> cb.files.contains_key(f)
}

/// A repository is well formed when every codebase in it is.
pub open spec fn repo_wf(r: RepoView) -> bool {
    forall|c: Seq<char>| #[trigger]
        r.codebases.contains_key(c) ==> staged_within_files(r.codebases[c])
}

/// Creation preserves well-formedness: a fresh codebase stages nothing.
pub proof fn lemma_create_preserves_wf(r: RepoView, name: Seq<char>)
    requires
        repo_wf(r),
    ensures
        repo_wf(create_effect(r, name)),
{
    assert(staged_within_files(fresh_codebase()));
}

/// After a write and before the next publish, the written codebase's
/// staged edits are non-empty and a subset of its files; every other
/// codebase is untouched, so well-formedness is preserved throughout.
pub proof fn lemma_write_stages(r: RepoView, c: Seq<char>, f: Seq<char>, data: Seq<u8>)
    requires
        repo_wf(r),
        r.codebases.contains_key(c),
    ensures
        write_effect(r, c, f, data).codebases[c].edit_files.contains(f),
        write_effect(r, c, f, data).codebases[c].edit_files != Set::<Seq<char>>::empty(),
        staged_within_files(write_effect(r, c, f, data).codebases[c]),
        repo_wf(write_effect(r, c, f, data)),
{
    let cb2 = write_effect(r, c, f, data).codebases[c];
    assert(cb2.edit_files.contains(f));
    assert(!Set::<Seq<char>>::empty().contains(f));
}

/// After a publish, the staged edits are empty and the version has advanced
/// by exactly one; the files and the entry file are already committed and
/// stay as they were.
pub proof fn lemma_publish_clears(r: RepoView, c: Seq<char>)
    requires
        r.codebases.contains_key(c),
    ensures
        publish_effect(r, c).codebases[c].edit_files =~= Set::<Seq<char>>::empty(),
        publish_effect(r, c).codebases[c].version == r.codebases[c].version + 1,
        publish_effect(r, c).codebases[c].files == r.codebases[c].files,
        publish_effect(r, c).codebases[c].main == r.codebases[c].main,
        repo_wf(r) ==> repo_wf(publish_effect(r, c)),
{
}

/// Activating `b` after activating `a` leaves exactly the state that
/// activating `b` alone leaves: `b` is the current program and no residual
/// reference to `a` remains anywhere.
pub proof fn lemma_activate_replaces(r: RepoView, a: Seq<char>, b: Seq<char>)
    ensures
        activate_effect(activate_effect(r, a), b) == activate_effect(r, b),
        activate_effect(activate_effect(r, a), b).active == Some(b),
{
}

/// A deactivation after any activation leaves no current program.
pub proof fn lemma_deactivate_clears(r: RepoView, a: Seq<char>)
    ensures
        deactivate_effect(activate_effect(r, a)).active is None,
{
}

/// A read of a file that is not among a codebase's files yields nothing.
pub proof fn lemma_read_absent_file(r: RepoView, c: Seq<char>, f: Seq<char>)
    requires
        !(r.codebases.contains_key(c) && r.codebases[c].files.contains_key(f)),
    ensures
        read_result(r, c, f) is None,
{
}

/// Round trip: once a write has committed, reading the same file returns
/// exactly the written bytes.
pub proof fn lemma_write_read_roundtrip(r: RepoView, c: Seq<char>, f: Seq<char>, data: Seq<u8>)
    requires
        r.codebases.contains_key(c),
    ensures
        read_result(write_effect(r, c, f, data), c, f) == Some(data),
{
}

} // verus!
