//! The local tree as the writes of a run leave it: a model of what carrying
//! out a [`FileWrite`](crate::download::FileWrite) does, and the laws of
//! runs that follow from it.

use crate::download::mirror_path;
use crate::download::FileWriteText;
use vstd::prelude::*;

verus! {

impl FileWriteText {
    /// The files of `tree` after this write: the contents of the write
    /// stand at its destination, in place of whatever stood there, and
    /// every other file is as it was.
    pub open spec fn apply(self, tree: Map<Seq<char>, Seq<u8>>) -> Map<Seq<char>, Seq<u8>> {
        tree.insert(self.destination, self.contents)
    }
}

/// The files of `tree` after the writes of `writes`, carried out in order.
pub open spec fn apply_all(tree: Map<Seq<char>, Seq<u8>>, writes: Seq<FileWriteText>) -> Map<
    Seq<char>,
    Seq<u8>,
>
    decreases writes.len(),
{
    if writes.len() == 0 {
        tree
    } else {
        writes.last().apply(apply_all(tree, writes.drop_last()))
    }
}

/// Whether some write of `writes` goes to `destination`.
pub open spec fn writes_to(writes: Seq<FileWriteText>, destination: Seq<char>) -> bool {
    exists|i: int| 0 <= i < writes.len() && (#[trigger] writes[i]).destination == destination
}

/// Whether the writes of `writes` that share a destination share their
/// contents too, as the writes of one run against one remote tree do.
pub open spec fn agreeing(writes: Seq<FileWriteText>) -> bool {
    forall|i: int, j: int|
        0 <= i < writes.len() && 0 <= j < writes.len() && (#[trigger] writes[i]).destination == (
        #[trigger] writes[j]).destination ==> writes[i].contents == writes[j].contents
}

/// Whether every write of `part` is a write of `whole`.
pub open spec fn drawn_from(part: Seq<FileWriteText>, whole: Seq<FileWriteText>) -> bool {
    forall|j: int| 0 <= j < part.len() ==> whole.contains(#[trigger] part[j])
}

/// The writes of a run into `root` over the listing `paths`, where the read
/// of `paths[i]` came back with `bodies[i]`.
pub open spec fn run_writes(root: Seq<char>, paths: Seq<Seq<char>>, bodies: Seq<Seq<u8>>) -> Seq<
    FileWriteText,
>
    recommends
        paths.len() == bodies.len(),
{
    Seq::new(
        paths.len(),
        |i: int| FileWriteText { destination: mirror_path(root, paths[i]), contents: bodies[i] },
    )
}

/// Whether `bodies` are what one remote tree holds at `paths`: a body for
/// each path, and for a path that is listed twice the same body twice.
pub open spec fn one_remote_tree(paths: Seq<Seq<char>>, bodies: Seq<Seq<u8>>) -> bool {
    &&& paths.len() == bodies.len()
    &&& forall|i: int, j: int|
        0 <= i < paths.len() && 0 <= j < paths.len() && #[trigger] paths[i] == #[trigger] paths[j]
            ==> bodies[i] == bodies[j]
}

/// Whether the remote tree that holds `bodies` at `paths` holds `body` at
/// `path`.
pub open spec fn listed(
    paths: Seq<Seq<char>>,
    bodies: Seq<Seq<u8>>,
    path: Seq<char>,
    body: Seq<u8>,
) -> bool {
    exists|i: int| 0 <= i < paths.len() && #[trigger] paths[i] == path && bodies[i] == body
}

/// Two paths of the remote tree go to one place under `root` only where
/// they are one path.
pub proof fn lemma_mirror_path_injective(root: Seq<char>, first: Seq<char>, second: Seq<char>)
    requires
        mirror_path(root, first) == mirror_path(root, second),
    ensures
        first == second,
{
    let prefix = if root.len() == 0 {
        Seq::<char>::empty()
    } else if root.last() == '/' {
        root
    } else {
        root + seq!['/']
    };
    assert(mirror_path(root, first) =~= prefix + first);
    assert(mirror_path(root, second) =~= prefix + second);
    assert((prefix + first).skip(prefix.len() as int) =~= first);
    assert((prefix + second).skip(prefix.len() as int) =~= second);
}

/// What is not written is left alone: a file of `tree` at a place that no
/// write of `writes` goes to is there afterwards, unchanged, and no file
/// appears at such a place.
pub proof fn lemma_other_files_untouched(
    tree: Map<Seq<char>, Seq<u8>>,
    writes: Seq<FileWriteText>,
    place: Seq<char>,
)
    requires
        !writes_to(writes, place),
    ensures
        apply_all(tree, writes).contains_key(place) == tree.contains_key(place),
        apply_all(tree, writes)[place] == tree[place],
    decreases writes.len(),
{
    if writes.len() > 0 {
        let before = writes.drop_last();
        assert(!writes_to(before, place)) by {
            if writes_to(before, place) {
                let i = choose|i: int|
                    0 <= i < before.len() && (#[trigger] before[i]).destination == place;
                assert(writes[i].destination == place);
            }
        }
        lemma_other_files_untouched(tree, before, place);
        assert(writes[writes.len() - 1].destination != place);
    }
}

/// What is written is there afterwards, byte for byte: after writes that
/// agree, in whatever order they came, the destination of each holds
/// exactly the contents of that write.
pub proof fn lemma_written_files(
    tree: Map<Seq<char>, Seq<u8>>,
    writes: Seq<FileWriteText>,
    i: int,
)
    requires
        agreeing(writes),
        0 <= i < writes.len(),
    ensures
        apply_all(tree, writes).contains_key(writes[i].destination),
        apply_all(tree, writes)[writes[i].destination] == writes[i].contents,
    decreases writes.len(),
{
    let last = writes.len() - 1;
    if i < last && writes[last].destination != writes[i].destination {
        let before = writes.drop_last();
        assert(agreeing(before)) by {
            assert forall|a: int, b: int|
                0 <= a < before.len() && 0 <= b < before.len() && (#[trigger] before[a]).destination
                    == (#[trigger] before[b]).destination implies before[a].contents
                == before[b].contents by {
                assert(before[a] == writes[a] && before[b] == writes[b]);
            }
        }
        lemma_written_files(tree, before, i);
        assert(before[i] == writes[i]);
    }
}

/// Writing again changes nothing: after the writes of `first`, writes that
/// `first` held already, in whatever order and however often, leave every
/// file as it is.
pub proof fn lemma_repeated_writes_change_nothing(
    tree: Map<Seq<char>, Seq<u8>>,
    first: Seq<FileWriteText>,
    second: Seq<FileWriteText>,
)
    requires
        agreeing(first),
        drawn_from(second, first),
    ensures
        apply_all(apply_all(tree, first), second) == apply_all(tree, first),
    decreases second.len(),
{
    let once = apply_all(tree, first);
    if second.len() > 0 {
        let before = second.drop_last();
        assert(drawn_from(before, first)) by {
            assert forall|j: int| 0 <= j < before.len() implies first.contains(
                #[trigger] before[j],
            ) by {
                assert(before[j] == second[j]);
            }
        }
        lemma_repeated_writes_change_nothing(tree, first, before);
        let last = second[second.len() - 1];
        let i = choose|i: int| 0 <= i < first.len() && first[i] == last;
        lemma_written_files(tree, first, i);
        assert(once.insert(last.destination, last.contents) =~= once);
    }
}

/// Writes drawn from agreeing writes agree.
proof fn lemma_drawn_writes_agree(part: Seq<FileWriteText>, whole: Seq<FileWriteText>)
    requires
        agreeing(whole),
        drawn_from(part, whole),
    ensures
        agreeing(part),
{
    assert forall|a: int, b: int|
        0 <= a < part.len() && 0 <= b < part.len() && (#[trigger] part[a]).destination == (
        #[trigger] part[b]).destination implies part[a].contents == part[b].contents by {
        let i = choose|i: int| 0 <= i < whole.len() && whole[i] == part[a];
        let j = choose|j: int| 0 <= j < whole.len() && whole[j] == part[b];
        assert(whole[i].destination == whole[j].destination);
    }
}

/// Two runs of the same writes leave the same file, or none, at `place`.
proof fn lemma_same_file_at(
    tree: Map<Seq<char>, Seq<u8>>,
    first: Seq<FileWriteText>,
    second: Seq<FileWriteText>,
    place: Seq<char>,
)
    requires
        agreeing(first),
        agreeing(second),
        drawn_from(second, first),
        drawn_from(first, second),
    ensures
        apply_all(tree, first).contains_key(place) == apply_all(tree, second).contains_key(place),
        apply_all(tree, first)[place] == apply_all(tree, second)[place],
{
    if writes_to(first, place) {
        let i = choose|i: int| 0 <= i < first.len() && (#[trigger] first[i]).destination == place;
        let j = choose|j: int| 0 <= j < second.len() && second[j] == first[i];
        lemma_written_files(tree, first, i);
        lemma_written_files(tree, second, j);
    } else {
        if writes_to(second, place) {
            let j = choose|j: int|
                0 <= j < second.len() && (#[trigger] second[j]).destination == place;
            let i = choose|i: int| 0 <= i < first.len() && first[i] == second[j];
            assert(first[i].destination == place);
        }
        lemma_other_files_untouched(tree, first, place);
        lemma_other_files_untouched(tree, second, place);
    }
}

/// The order of the writes of a run is immaterial: two runs that carry out
/// the same writes, each in its own order, leave the same files.
pub proof fn lemma_order_is_immaterial(
    tree: Map<Seq<char>, Seq<u8>>,
    first: Seq<FileWriteText>,
    second: Seq<FileWriteText>,
)
    requires
        agreeing(first),
        drawn_from(second, first),
        drawn_from(first, second),
    ensures
        apply_all(tree, first) == apply_all(tree, second),
{
    let one = apply_all(tree, first);
    let other = apply_all(tree, second);
    lemma_drawn_writes_agree(second, first);
    assert forall|place: Seq<char>| #[trigger]
        one.dom().contains(place) == other.dom().contains(place) by {
        lemma_same_file_at(tree, first, second, place);
    }
    assert forall|place: Seq<char>| #[trigger] one[place] == other[place] by {
        lemma_same_file_at(tree, first, second, place);
    }
    assert(one =~= other);
}

/// The writes of a run against one remote tree agree.
proof fn lemma_run_writes_agree(root: Seq<char>, paths: Seq<Seq<char>>, bodies: Seq<Seq<u8>>)
    requires
        one_remote_tree(paths, bodies),
    ensures
        agreeing(run_writes(root, paths, bodies)),
{
    let writes = run_writes(root, paths, bodies);
    assert forall|i: int, j: int|
        0 <= i < writes.len() && 0 <= j < writes.len() && (#[trigger] writes[i]).destination == (
        #[trigger] writes[j]).destination implies writes[i].contents == writes[j].contents by {
        lemma_mirror_path_injective(root, paths[i], paths[j]);
    }
}

/// A run mirrors the remote tree: after a run into `root` in which every
/// read and every write went through, the file at each listed path stands
/// under `root` at the place of that path, with exactly the bytes that the
/// remote tree holds there.
pub proof fn lemma_run_mirrors_the_remote_tree(
    tree: Map<Seq<char>, Seq<u8>>,
    root: Seq<char>,
    paths: Seq<Seq<char>>,
    bodies: Seq<Seq<u8>>,
    i: int,
)
    requires
        one_remote_tree(paths, bodies),
        0 <= i < paths.len(),
    ensures
        apply_all(tree, run_writes(root, paths, bodies)).contains_key(mirror_path(root, paths[i])),
        apply_all(tree, run_writes(root, paths, bodies))[mirror_path(root, paths[i])] == bodies[i],
{
    lemma_run_writes_agree(root, paths, bodies);
    lemma_written_files(tree, run_writes(root, paths, bodies), i);
}

/// A second run changes nothing: against the remote tree of the first run,
/// unchanged, and into the same directory, it leaves the files that the
/// first run left. The listing of the second run may come in another order,
/// or repeat or leave out entries.
pub proof fn lemma_second_run_changes_nothing(
    tree: Map<Seq<char>, Seq<u8>>,
    root: Seq<char>,
    paths: Seq<Seq<char>>,
    bodies: Seq<Seq<u8>>,
    again_paths: Seq<Seq<char>>,
    again_bodies: Seq<Seq<u8>>,
)
    requires
        one_remote_tree(paths, bodies),
        again_paths.len() == again_bodies.len(),
        forall|j: int|
            0 <= j < again_paths.len() ==> listed(
                paths,
                bodies,
                #[trigger] again_paths[j],
                again_bodies[j],
            ),
    ensures
        apply_all(
            apply_all(tree, run_writes(root, paths, bodies)),
            run_writes(root, again_paths, again_bodies),
        ) == apply_all(tree, run_writes(root, paths, bodies)),
{
    let first = run_writes(root, paths, bodies);
    let second = run_writes(root, again_paths, again_bodies);
    lemma_run_writes_agree(root, paths, bodies);
    assert(drawn_from(second, first)) by {
        assert forall|j: int| 0 <= j < second.len() implies first.contains(
            #[trigger] second[j],
        ) by {
            assert(listed(paths, bodies, again_paths[j], again_bodies[j]));
            let i = choose|i: int|
                0 <= i < paths.len() && #[trigger] paths[i] == again_paths[j] && bodies[i]
                    == again_bodies[j];
            assert(first[i] == second[j]);
        }
    }
    lemma_repeated_writes_change_nothing(tree, first, second);
}

/// A run is idempotent: the same run once more leaves the same files.
pub proof fn lemma_run_twice_is_run_once(
    tree: Map<Seq<char>, Seq<u8>>,
    root: Seq<char>,
    paths: Seq<Seq<char>>,
    bodies: Seq<Seq<u8>>,
)
    requires
        one_remote_tree(paths, bodies),
    ensures
        apply_all(
            apply_all(tree, run_writes(root, paths, bodies)),
            run_writes(root, paths, bodies),
        ) == apply_all(tree, run_writes(root, paths, bodies)),
{
    assert forall|j: int| 0 <= j < paths.len() implies listed(
        paths,
        bodies,
        #[trigger] paths[j],
        bodies[j],
    ) by {}
    lemma_second_run_changes_nothing(tree, root, paths, bodies, paths, bodies);
}

} // verus!
