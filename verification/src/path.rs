//! Paths, and the directories on the way to them.
use vstd::prelude::*;
use vstd::string::*;

use axfs_ng_vfs::path::{Path, PathBuf};

use crate::text::texts;

verus! {

/// The pieces of a text between slashes.
pub open spec fn pieces(text: Seq<char>) -> Seq<Seq<char>>
    decreases text.len(),
{
    if text.len() == 0 {
        seq![Seq::empty()]
    } else {
        let before = pieces(text.drop_last());
        if text.last() == '/' {
            before.push(Seq::empty())
        } else {
            before.drop_last().push(before.last().push(text.last()))
        }
    }
}

/// A piece that stands for a step: neither empty nor a dot.
pub open spec fn is_step(piece: Seq<char>) -> bool {
    piece.len() > 0 && piece != seq!['.']
}

/// The components of a path: the root if the path starts with a slash, and the
/// pieces between the slashes. Empty pieces and dots count at the start only.
pub open spec fn components(path: Seq<char>) -> Seq<Seq<char>> {
    if path.len() == 0 {
        Seq::empty()
    } else {
        let all = pieces(path);
        let first = if all[0].len() == 0 {
            seq!['/']
        } else {
            all[0]
        };
        seq![first] + all.drop_first().filter(|piece: Seq<char>| is_step(piece))
    }
}

/// A path with another one put behind it. An absolute path takes the place of
/// what was there; otherwise there is one slash between the two at least.
pub open spec fn pushed(path: Seq<char>, more: Seq<char>) -> Seq<char> {
    if more.len() == 0 {
        path
    } else if more[0] == '/' {
        more
    } else if path.len() > 0 && path.last() == '/' {
        path + more
    } else {
        path.push('/') + more
    }
}

/// The path that the components make up, put one behind the other.
pub open spec fn joined(parts: Seq<Seq<char>>) -> Seq<char>
    decreases parts.len(),
{
    if parts.len() == 0 {
        Seq::empty()
    } else {
        pushed(joined(parts.drop_last()), parts.last())
    }
}

/// The directories on the way to a path, and the path itself.
pub open spec fn way_to(path: Seq<char>) -> Seq<Seq<char>> {
    let parts = components(path);
    Seq::new(parts.len(), |i: int| joined(parts.take(i + 1)))
}

/// The way to a path has a step for each component: the first component, and
/// then each further one put behind the step before. The last step is the whole.
pub proof fn law_way_goes_step_by_step(path: Seq<char>, i: int)
    ensures
        way_to(path).len() == components(path).len(),
        way_to(path).len() > 0 ==> way_to(path)[0] == pushed(Seq::empty(), components(path)[0]),
        0 < i < way_to(path).len() ==> way_to(path)[i] == pushed(
            way_to(path)[i - 1],
            components(path)[i],
        ),
        way_to(path).len() > 0 ==> way_to(path).last() == joined(components(path)),
{
    let parts = components(path);
    assert(joined(Seq::empty()) =~= Seq::<char>::empty());
    if 0 <= i < parts.len() {
        assert(parts.take(i + 1).drop_last() =~= parts.take(i));
        assert(parts.take(i + 1).last() == parts[i]);
    }
    if parts.len() > 0 {
        assert(parts.take(1).drop_last() =~= Seq::<Seq<char>>::empty());
        assert(parts.take(1).last() == parts[0]);
    }
    assert(parts.take(parts.len() as int) =~= parts);
}

/// `axfs_ng_vfs::path::Path::components`, each component by its text.
#[verifier::external_body]
fn path_components(path: &str) -> (parts: Vec<String>)
    ensures
        texts(parts@) == components(path@),
{
    Path::new(path).components().map(|part| String::from(part.as_str())).collect()
}

/// `axfs_ng_vfs::path::PathBuf::push`, on a path given by its text.
#[verifier::external_body]
pub(crate) fn path_push(path: &str, more: &str) -> (longer: String)
    ensures
        longer@ == pushed(path@, more@),
{
    let mut buf = PathBuf::from(path);
    buf.push(more);
    String::from(buf.as_str())
}

/// Gives the directories on the way to a path, and the path itself.
pub fn way(path: &str) -> (steps: Vec<String>)
    ensures
        texts(steps@) == way_to(path@),
{
    let parts: Vec<String> = path_components(path);
    let mut steps: Vec<String> = Vec::new();
    let mut so_far: String = String::new();
    let mut i: usize = 0;
    assert(texts(parts@).take(0) =~= Seq::<Seq<char>>::empty());
    assert(so_far@ =~= Seq::<char>::empty());
    while i < parts.len()
        invariant
            i <= parts@.len(),
            steps@.len() == i,
            so_far@ == joined(texts(parts@).take(i as int)),
            forall|k: int|
                0 <= k < i ==> (#[trigger] steps@[k])@ == joined(texts(parts@).take(k + 1)),
        decreases parts@.len() - i,
    {
        proof {
            let now = texts(parts@).take(i + 1);
            assert(now.drop_last() =~= texts(parts@).take(i as int));
            assert(now.last() == parts@[i as int]@);
        }
        so_far = path_push(so_far.as_str(), parts[i].as_str());
        steps.push(so_far.clone());
        i = i + 1;
    }
    assert(texts(steps@) =~= way_to(path@));
    steps
}

} // verus!
