//! Which repository a directory belongs to.

use crate::path::{path_starts_with, ComponentView, DirPath};
use vstd::prelude::*;

verus! {

/// The paths in a list.
pub open spec fn path_set(paths: Seq<DirPath>) -> Set<Seq<ComponentView>> {
    Set::new(|path: Seq<ComponentView>| exists|i: int| 0 <= i < paths.len() && (#[trigger] paths[i])@ == path)
}

/// The first repository on the way down to `abs_path`, from its first `depth`
/// components on.
pub open spec fn first_repository(
    abs_path: Seq<ComponentView>,
    repositories: Set<Seq<ComponentView>>,
    depth: int,
) -> Option<Seq<ComponentView>>
    decreases abs_path.len() - depth + 1,
{
    if depth < 0 || depth > abs_path.len() {
        None
    } else if repositories.contains(abs_path.take(depth)) {
        Some(abs_path.take(depth))
    } else {
        first_repository(abs_path, repositories, depth + 1)
    }
}

/// The outermost repository at or below `root` on the way to `abs_path`.
pub open spec fn outermost_repository(
    root: Seq<ComponentView>,
    abs_path: Seq<ComponentView>,
    repositories: Set<Seq<ComponentView>>,
) -> Option<Seq<ComponentView>> {
    if path_starts_with(abs_path, root) {
        first_repository(abs_path, repositories, root.len() as int)
    } else {
        None
    }
}

/// Whether a directory lies at or below `root` on the way to `abs_path`.
pub open spec fn on_the_way(
    root: Seq<ComponentView>,
    abs_path: Seq<ComponentView>,
    directory: Seq<ComponentView>,
) -> bool {
    path_starts_with(abs_path, directory) && path_starts_with(directory, root)
}

fn contains_path(paths: &Vec<DirPath>, path: &DirPath) -> (found: bool)
    ensures
        found == path_set(paths@).contains(path@),
{
    let mut index: usize = 0;
    while index < paths.len()
        invariant
            index <= paths.len(),
            forall|i: int| 0 <= i < index ==> (#[trigger] paths@[i])@ != path@,
        decreases paths.len() - index,
    {
        if paths[index].same(path) {
            return true;
        }
        index = index + 1;
    }
    false
}

/// The directories on the way from `root` to `abs_path`, both included: those
/// in which a repository marker decides. There are none where `abs_path` is
/// not below `root`.
pub fn repository_candidates(root: &DirPath, abs_path: &DirPath) -> (candidates: Vec<DirPath>)
    ensures
        !path_starts_with(abs_path@, root@) ==> candidates@.len() == 0,
        path_starts_with(abs_path@, root@) ==> {
            &&& candidates@.len() == abs_path@.len() - root@.len() + 1
            &&& forall|i: int|
                0 <= i < candidates@.len() ==> (#[trigger] candidates@[i])@ == abs_path@.take(
                    root@.len() + i,
                )
        },
        path_set(candidates@) == Set::new(
            |directory: Seq<ComponentView>| on_the_way(root@, abs_path@, directory),
        ),
{
    let mut candidates: Vec<DirPath> = Vec::new();
    if abs_path.starts_with(root) {
        let first = root.components.len();
        let last = abs_path.components.len();
        let mut depth: usize = first;
        let mut done = false;
        while !done
            invariant
                first == root@.len(),
                last == abs_path@.len(),
                first <= depth <= last,
                candidates@.len() == (if done { last - first + 1 } else { depth - first }),
                forall|i: int|
                    0 <= i < candidates@.len() ==> (#[trigger] candidates@[i])@ == abs_path@.take(
                        first + i,
                    ),
            decreases last - depth, if done { 0int } else { 1int },
        {
            candidates.push(abs_path.first_components(depth));
            if depth < last {
                depth = depth + 1;
            } else {
                done = true;
            }
        }
        proof {
            assert forall|directory: Seq<ComponentView>|
                path_set(candidates@).contains(directory) <==> on_the_way(
                    root@,
                    abs_path@,
                    directory,
                ) by {
                if path_set(candidates@).contains(directory) {
                    let i = choose|i: int|
                        0 <= i < candidates@.len() && (#[trigger] candidates@[i])@ == directory;
                    assert(abs_path@.take(first + i).take(root@.len() as int) =~= abs_path@.take(
                        root@.len() as int,
                    ));
                }
                if on_the_way(root@, abs_path@, directory) {
                    let i = directory.len() - first;
                    assert(candidates@[i]@ == directory);
                }
            }
        }
    } else {
        proof {
            assert forall|directory: Seq<ComponentView>|
                !on_the_way(root@, abs_path@, directory) by {
                if on_the_way(root@, abs_path@, directory) {
                    assert(abs_path@.take(root@.len() as int) =~= directory.take(
                        root@.len() as int,
                    ));
                }
            }
        }
    }
    assert(path_set(candidates@) =~= Set::new(
        |directory: Seq<ComponentView>| on_the_way(root@, abs_path@, directory),
    ));
    candidates
}

/// Returns the outermost directory at or below `root` on the way to `abs_path`
/// that is one of `repositories`, the directories that hold a repository
/// marker (a `.git` entry, of whatever kind). A path outside `root` has none.
pub fn outermost_repository_in(
    root: &DirPath,
    abs_path: &DirPath,
    repositories: &Vec<DirPath>,
) -> (found: Option<DirPath>)
    ensures
        found.is_some() == outermost_repository(
            root@,
            abs_path@,
            path_set(repositories@),
        ).is_some(),
        found matches Some(directory) ==> Some(directory@) == outermost_repository(
            root@,
            abs_path@,
            path_set(repositories@),
        ),
{
    if !abs_path.starts_with(root) {
        return None;
    }
    let ghost known = path_set(repositories@);
    let mut depth: usize = root.components.len();
    let last = abs_path.components.len();
    loop
        invariant
            known == path_set(repositories@),
            last == abs_path@.len(),
            root@.len() <= depth <= last,
            outermost_repository(root@, abs_path@, known) == first_repository(
                abs_path@,
                known,
                depth as int,
            ),
        decreases last - depth,
    {
        let current = abs_path.first_components(depth);
        if contains_path(repositories, &current) {
            return Some(current);
        }
        if depth == last {
            assert(first_repository(abs_path@, known, last + 1).is_none());
            return None;
        }
        depth = depth + 1;
    }
}

proof fn lemma_first_repository(
    abs_path: Seq<ComponentView>,
    repositories: Set<Seq<ComponentView>>,
    depth: int,
)
    requires
        0 <= depth,
    ensures
        match first_repository(abs_path, repositories, depth) {
            Some(found) => {
                &&& depth <= found.len() <= abs_path.len()
                &&& found == abs_path.take(found.len() as int)
                &&& repositories.contains(found)
                &&& forall|k: int|
                    depth <= k < found.len() ==> !repositories.contains(#[trigger] abs_path.take(k))
            },
            None => forall|k: int|
                depth <= k <= abs_path.len() ==> !repositories.contains(
                    #[trigger] abs_path.take(k),
                ),
        },
    decreases abs_path.len() - depth + 1,
{
    if depth <= abs_path.len() && !repositories.contains(abs_path.take(depth)) {
        lemma_first_repository(abs_path, repositories, depth + 1);
    }
}

/// What is found is a repository at or below the root on the way to the
/// requested directory, and there is none further out. Nothing is found only
/// where there is no repository on the way.
pub proof fn law_outermost_repository_is_outermost(
    root: Seq<ComponentView>,
    abs_path: Seq<ComponentView>,
    repositories: Set<Seq<ComponentView>>,
)
    ensures
        match outermost_repository(root, abs_path, repositories) {
            Some(found) => {
                &&& repositories.contains(found)
                &&& on_the_way(root, abs_path, found)
                &&& forall|other: Seq<ComponentView>|
                    repositories.contains(other) && on_the_way(root, abs_path, other)
                        ==> #[trigger] path_starts_with(other, found)
            },
            None => forall|other: Seq<ComponentView>|
                on_the_way(root, abs_path, other) ==> !#[trigger] repositories.contains(other),
        },
{
    let result = outermost_repository(root, abs_path, repositories);
    lemma_first_repository(abs_path, repositories, root.len() as int);
    if let Some(found) = result {
        assert(found.take(root.len() as int) =~= abs_path.take(root.len() as int));
        assert forall|other: Seq<ComponentView>|
            repositories.contains(other) && on_the_way(
                root,
                abs_path,
                other,
            ) implies #[trigger] path_starts_with(other, found) by {
            assert(other == abs_path.take(other.len() as int));
            assert(found.len() <= other.len());
            assert(other.take(found.len() as int) =~= abs_path.take(found.len() as int));
        }
    } else {
        assert forall|other: Seq<ComponentView>|
            on_the_way(root, abs_path, other) implies !#[trigger] repositories.contains(other) by {
            assert(other == abs_path.take(other.len() as int));
            assert(abs_path.take(root.len() as int) =~= other.take(root.len() as int));
        }
    }
}

/// A repository at the root shadows everything below it.
pub proof fn law_repository_at_the_root_shadows_all(
    root: Seq<ComponentView>,
    abs_path: Seq<ComponentView>,
    repositories: Set<Seq<ComponentView>>,
)
    requires
        repositories.contains(root),
        path_starts_with(abs_path, root),
    ensures
        outermost_repository(root, abs_path, repositories) == Some(root),
{
}

/// Paths outside the root are not in any repository of it.
pub proof fn law_paths_outside_the_root_have_no_repository(
    root: Seq<ComponentView>,
    abs_path: Seq<ComponentView>,
    repositories: Set<Seq<ComponentView>>,
)
    requires
        !path_starts_with(abs_path, root),
    ensures
        outermost_repository(root, abs_path, repositories).is_none(),
{
}

/// All directories inside an outermost repository have that same outermost
/// repository, however many repositories are nested in it.
pub proof fn law_nested_directories_share_the_outermost_repository(
    root: Seq<ComponentView>,
    first: Seq<ComponentView>,
    second: Seq<ComponentView>,
    repositories: Set<Seq<ComponentView>>,
    repository: Seq<ComponentView>,
)
    requires
        outermost_repository(root, first, repositories) == Some(repository),
        path_starts_with(second, repository),
    ensures
        outermost_repository(root, second, repositories) == Some(repository),
{
    lemma_first_repository(first, repositories, root.len() as int);
    lemma_first_repository(second, repositories, root.len() as int);
    assert(repository == first.take(repository.len() as int));
    assert(second.take(root.len() as int) =~= repository.take(root.len() as int));
    assert(first.take(root.len() as int) =~= repository.take(root.len() as int));
    assert(path_starts_with(second, root));
    assert forall|k: int| root.len() <= k < repository.len() implies !repositories.contains(
        #[trigger] second.take(k),
    ) by {
        assert(second.take(k) =~= repository.take(k));
        assert(first.take(k) =~= repository.take(k));
    }
    assert(second.take(repository.len() as int) == repository);
    let found = first_repository(second, repositories, root.len() as int);
    assert(found.is_some());
    let directory = found.unwrap();
    if directory.len() < repository.len() {
        assert(!repositories.contains(second.take(directory.len() as int)));
    }
    if directory.len() > repository.len() {
        assert(!repositories.contains(second.take(repository.len() as int)));
    }
}

/// To look for markers only in the candidates is enough.
pub proof fn law_candidates_decide(
    root: Seq<ComponentView>,
    abs_path: Seq<ComponentView>,
    repositories: Set<Seq<ComponentView>>,
    seen: Set<Seq<ComponentView>>,
)
    requires
        forall|directory: Seq<ComponentView>|
            on_the_way(root, abs_path, directory) ==> (repositories.contains(directory)
                <==> #[trigger] seen.contains(directory)),
    ensures
        outermost_repository(root, abs_path, seen) == outermost_repository(
            root,
            abs_path,
            repositories,
        ),
{
    if path_starts_with(abs_path, root) {
        lemma_same_first_repository(root, abs_path, repositories, seen, root.len() as int);
    }
}

proof fn lemma_same_first_repository(
    root: Seq<ComponentView>,
    abs_path: Seq<ComponentView>,
    repositories: Set<Seq<ComponentView>>,
    seen: Set<Seq<ComponentView>>,
    depth: int,
)
    requires
        path_starts_with(abs_path, root),
        root.len() <= depth,
        forall|directory: Seq<ComponentView>|
            on_the_way(root, abs_path, directory) ==> (repositories.contains(directory)
                <==> #[trigger] seen.contains(directory)),
    ensures
        first_repository(abs_path, seen, depth) == first_repository(abs_path, repositories, depth),
    decreases abs_path.len() - depth + 1,
{
    if depth <= abs_path.len() {
        let directory = abs_path.take(depth);
        assert(directory.take(root.len() as int) =~= abs_path.take(root.len() as int));
        assert(seen.contains(directory) == repositories.contains(directory));
        lemma_same_first_repository(root, abs_path, repositories, seen, depth + 1);
    }
}

/// The directories on the way are those that the root can be extended to, and
/// that can be extended to the requested one; the set of a list of paths holds
/// those in the list.
pub proof fn law_directories_on_the_way_lie_between(
    root: Seq<ComponentView>,
    abs_path: Seq<ComponentView>,
    directory: Seq<ComponentView>,
    paths: Seq<DirPath>,
    below: Seq<ComponentView>,
    rest: Seq<ComponentView>,
    index: int,
)
    ensures
        on_the_way(root, root + below + rest, root + below),
        on_the_way(root, abs_path, directory) ==> directory == root + directory.skip(
            root.len() as int,
        ) && abs_path == directory + abs_path.skip(directory.len() as int),
        0 <= index < paths.len() ==> path_set(paths).contains(paths[index]@),
        path_set(paths).contains(directory) ==> exists|i: int|
            0 <= i < paths.len() && (#[trigger] paths[i])@ == directory,
{
    let whole = root + below + rest;
    assert(whole.take((root + below).len() as int) =~= root + below);
    assert((root + below).take(root.len() as int) =~= root);
    if on_the_way(root, abs_path, directory) {
        assert(directory =~= directory.take(root.len() as int) + directory.skip(root.len() as int));
        assert(abs_path =~= abs_path.take(directory.len() as int) + abs_path.skip(
            directory.len() as int,
        ));
    }
}

} // verus!
