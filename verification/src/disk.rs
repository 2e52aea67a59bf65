use crate::link::{
    decided_import_action, decided_symlink_action, due_imports, ImportAction, PathState,
    SymlinkAction,
};
use crate::virtual_dir::{DirSymlinkView, FileImportView};
use vstd::prelude::*;

verus! {

/// What stands at the paths of a file system, as far as an install looks at
/// it. A path that the mapping does not hold has nothing standing at it.
pub type Disk = Map<Seq<char>, PathState>;

/// What stands at `path`.
pub open spec fn state_at(disk: Disk, path: Seq<char>) -> PathState {
    if disk.dom().contains(path) {
        disk[path]
    } else {
        PathState::Absent
    }
}

/// The disk after the link `link` was wanted: it is made where the decision
/// is to make it, and nothing changes otherwise.
pub open spec fn after_symlink(disk: Disk, link: DirSymlinkView) -> Disk {
    if decided_symlink_action(state_at(disk, link.link)) == Some(SymlinkAction::Create) {
        disk.insert(link.link, PathState::Symlink)
    } else {
        disk
    }
}

/// The disk after the links `links` were wanted, one after the other.
pub open spec fn after_symlinks(disk: Disk, links: Seq<DirSymlinkView>) -> Disk
    decreases links.len(),
{
    if links.len() == 0 {
        disk
    } else {
        after_symlink(after_symlinks(disk, links.drop_last()), links.last())
    }
}

/// The disk after the file of `import` was to be brought to its place: it
/// is brought there where the decision is to do so.
pub open spec fn after_import(disk: Disk, import: FileImportView) -> Disk {
    if decided_import_action(state_at(disk, import.target) != PathState::Absent)
        == ImportAction::Link {
        disk.insert(import.target, PathState::Other)
    } else {
        disk
    }
}

/// The disk after the files of `imports` were to be brought to their places,
/// one after the other.
pub open spec fn after_imports(disk: Disk, imports: Seq<FileImportView>) -> Disk
    decreases imports.len(),
{
    if imports.len() == 0 {
        disk
    } else {
        after_import(after_imports(disk, imports.drop_last()), imports.last())
    }
}

/// The disk after the entry of a package was laid out: where nothing stands
/// at the package's own directory, its files are brought in, which makes the
/// directory; then the links to its dependencies are laid.
pub open spec fn after_layout(
    disk: Disk,
    save_path: Seq<char>,
    imports: Seq<FileImportView>,
    links: Seq<DirSymlinkView>,
) -> Disk {
    after_symlinks(
        after_due_imports(
            disk,
            save_path,
            due_imports(state_at(disk, save_path) != PathState::Absent, imports),
        ),
        links,
    )
}

/// The disk after the due files of a package were brought into its own
/// directory: bringing in a file makes the directory.
pub open spec fn after_due_imports(disk: Disk, save_path: Seq<char>, due: Seq<FileImportView>) -> Disk {
    if due.len() > 0 {
        after_imports(disk, due).insert(save_path, PathState::Other)
    } else {
        disk
    }
}

/// Laying links changes nothing at a path at which something stands.
pub proof fn lemma_symlinks_keep_what_stands(
    disk: Disk,
    links: Seq<DirSymlinkView>,
    path: Seq<char>,
)
    requires
        state_at(disk, path) != PathState::Absent,
    ensures
        state_at(after_symlinks(disk, links), path) == state_at(disk, path),
    decreases links.len(),
{
    if links.len() > 0 {
        lemma_symlinks_keep_what_stands(disk, links.drop_last(), path);
    }
}

/// After links were wanted, something stands at the path of each of them.
pub proof fn lemma_symlinks_leave_nothing_absent(disk: Disk, links: Seq<DirSymlinkView>)
    ensures
        forall|i: int|
            0 <= i < links.len() ==> state_at(
                after_symlinks(disk, links),
                (#[trigger] links[i]).link,
            ) != PathState::Absent,
    decreases links.len(),
{
    if links.len() > 0 {
        let earlier = links.drop_last();
        lemma_symlinks_leave_nothing_absent(disk, earlier);
        assert forall|i: int| 0 <= i < links.len() implies state_at(
            after_symlinks(disk, links),
            (#[trigger] links[i]).link,
        ) != PathState::Absent by {
            if i < earlier.len() {
                assert(earlier[i] == links[i]);
            }
        }
    }
}

/// Wanting links where something stands at the path of each changes nothing.
pub proof fn lemma_symlinks_settled(disk: Disk, links: Seq<DirSymlinkView>)
    requires
        forall|i: int|
            0 <= i < links.len() ==> state_at(disk, (#[trigger] links[i]).link)
                != PathState::Absent,
    ensures
        after_symlinks(disk, links) == disk,
    decreases links.len(),
{
    if links.len() > 0 {
        let earlier = links.drop_last();
        lemma_symlinks_settled(disk, earlier);
    }
}

/// Laying links is idempotent: wanting the same links a second time leaves
/// the disk as the first time left it.
pub proof fn lemma_symlinks_idempotent(disk: Disk, links: Seq<DirSymlinkView>)
    ensures
        after_symlinks(after_symlinks(disk, links), links) == after_symlinks(disk, links),
{
    lemma_symlinks_leave_nothing_absent(disk, links);
    lemma_symlinks_settled(after_symlinks(disk, links), links);
}

/// Bringing in a file is idempotent: a file that was brought to its place is
/// left alone when the same import runs again.
pub proof fn lemma_import_idempotent(disk: Disk, import: FileImportView)
    ensures
        after_import(after_import(disk, import), import) == after_import(disk, import),
        state_at(after_import(disk, import), import.target) != PathState::Absent,
{
}

/// Idempotent install: laying out the entry of a package a second time
/// leaves the disk as the first time left it.
pub proof fn lemma_layout_idempotent(
    disk: Disk,
    save_path: Seq<char>,
    imports: Seq<FileImportView>,
    links: Seq<DirSymlinkView>,
)
    ensures
        after_layout(after_layout(disk, save_path, imports, links), save_path, imports, links)
            == after_layout(disk, save_path, imports, links),
{
    let imported = after_due_imports(
        disk,
        save_path,
        due_imports(state_at(disk, save_path) != PathState::Absent, imports),
    );
    if imports.len() > 0 {
        lemma_symlinks_keep_what_stands(imported, links, save_path);
    }
    lemma_symlinks_idempotent(imported, links);
}

/// Laying links changes the disk at the paths of these links only.
pub proof fn lemma_symlinks_touch_their_paths_only(
    disk: Disk,
    links: Seq<DirSymlinkView>,
    path: Seq<char>,
)
    requires
        state_at(after_symlinks(disk, links), path) != state_at(disk, path),
    ensures
        exists|i: int| 0 <= i < links.len() && (#[trigger] links[i]).link == path,
    decreases links.len(),
{
    if links.len() > 0 {
        if links.last().link != path {
            lemma_symlinks_touch_their_paths_only(disk, links.drop_last(), path);
        }
    }
}

/// Bringing in files changes the disk at the places of these files only.
pub proof fn lemma_imports_touch_their_targets_only(
    disk: Disk,
    imports: Seq<FileImportView>,
    path: Seq<char>,
)
    requires
        state_at(after_imports(disk, imports), path) != state_at(disk, path),
    ensures
        exists|i: int| 0 <= i < imports.len() && (#[trigger] imports[i]).target == path,
    decreases imports.len(),
{
    if imports.len() > 0 {
        if imports.last().target != path {
            lemma_imports_touch_their_targets_only(disk, imports.drop_last(), path);
        }
    }
}

/// Isolation: laying out the entry of a package changes the disk at the
/// package's own directory, at the places of its files and at the paths of
/// the links to its dependencies, and nowhere else.
pub proof fn lemma_layout_touches_planned_paths_only(
    disk: Disk,
    save_path: Seq<char>,
    imports: Seq<FileImportView>,
    links: Seq<DirSymlinkView>,
    path: Seq<char>,
)
    requires
        state_at(after_layout(disk, save_path, imports, links), path) != state_at(disk, path),
    ensures
        path == save_path || (exists|i: int|
            0 <= i < imports.len() && (#[trigger] imports[i]).target == path) || (exists|i: int|
            0 <= i < links.len() && (#[trigger] links[i]).link == path),
{
    let imported = after_due_imports(
        disk,
        save_path,
        due_imports(state_at(disk, save_path) != PathState::Absent, imports),
    );
    if state_at(after_symlinks(imported, links), path) != state_at(imported, path) {
        lemma_symlinks_touch_their_paths_only(imported, links, path);
    } else if path != save_path {
        lemma_imports_touch_their_targets_only(disk, imports, path);
    }
}

} // verus!
