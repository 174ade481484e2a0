//! What paths are, read off their bytes: `/` is the byte 47 and `.` the byte 46.
use crate::path;
use vstd::prelude::*;

verus! {

/// What a segment without separators adds to the components before it: itself, unless it
/// is empty or `.`.
pub open spec fn segment_adds(segment: Seq<u8>) -> Seq<Seq<u8>> {
    if segment == Seq::<u8>::empty() || segment == seq![46u8] {
        Seq::empty()
    } else {
        seq![segment]
    }
}

proof fn lemma_segment(segment: Seq<u8>)
    requires
        !segment.contains(47u8),
    ensures
        path::components_from(segment, 0) == segment_adds(segment),
        !path::is_absolute(segment),
{
    if segment.len() > 0 {
        assert(segment.contains(segment[0]));
        assert forall|i: int| 0 <= i < segment.len() implies #[trigger] segment[i]
            != path::SEPARATOR by {
            assert(segment.contains(segment[i]));
        }
        path::lemma_segment_end_is(segment, 0, segment.len() as int);
        assert(segment.subrange(0, segment.len() as int) == segment);
        assert(path::components_from(segment, segment.len() + 1int) == Seq::<Seq<u8>>::empty());
        assert(seq![segment] + Seq::<Seq<u8>>::empty() == seq![segment]);
    } else {
        assert(segment == Seq::<u8>::empty());
    }
}

/// A path without separators is its only component, unless it is empty.
pub proof fn law_single_segment(segment: Seq<u8>)
    requires
        !segment.contains(47u8),
    ensures
        path::components(segment) == (if segment.len() == 0 {
            Seq::empty()
        } else {
            seq![segment]
        }),
{
    lemma_segment(segment);
    if segment.len() > 0 {
        assert(segment.contains(segment[0]));
        if segment.len() > 1 {
            assert(segment.contains(segment[1]));
        } else if segment[0] == 46u8 {
            assert(segment == seq![46u8]);
            assert(segment.take(1) == segment);
            assert(path::components_from(segment, 1) == Seq::<Seq<u8>>::empty());
            assert(seq![segment] + Seq::<Seq<u8>>::empty() == seq![segment]);
        }
    }
}

/// The root is a component of its own, with the segment behind it next.
pub proof fn law_segment_below_the_root(segment: Seq<u8>)
    requires
        !segment.contains(47u8),
    ensures
        path::components(seq![47u8] + segment) == seq![seq![47u8]] + segment_adds(segment),
{
    lemma_segment(segment);
    let all = seq![47u8] + segment;
    assert(all.take(1) == seq![47u8]);
    let none = Seq::<u8>::empty();
    assert(none.push(path::SEPARATOR) + segment == all);
    path::lemma_components_separated(none, segment, 1);
    assert(path::components_from(none, 1) == Seq::<Seq<u8>>::empty());
    assert(Seq::<Seq<u8>>::empty() + segment_adds(segment) == segment_adds(segment));
}

/// A separator and a segment behind a path add the segment to its components, unless the
/// segment is empty or `.`. With the two laws above this says what the components of every
/// path are.
pub proof fn law_next_segment(path: Seq<u8>, segment: Seq<u8>)
    requires
        path.len() > 0,
        !segment.contains(47u8),
    ensures
        path::components(path.push(47u8) + segment) == path::components(path) + segment_adds(
            segment,
        ),
{
    lemma_segment(segment);
    let all = path.push(47u8) + segment;
    let lead = path::lead_length(path);
    assert(all[0] == path[0]);
    if path.len() > 1 {
        assert(all[1] == path[1]);
    } else {
        assert(all[1] == 47u8);
    }
    assert(path::lead_length(all) == lead);
    path::lemma_components_separated(path, segment, lead);
    if lead == 1 {
        assert(all.take(1) == path.take(1));
        assert(seq![path.take(1)] + (path::components_from(path, 1) + segment_adds(segment)) == (
        seq![path.take(1)] + path::components_from(path, 1)) + segment_adds(segment));
    }
}

/// Two paths are the same where they have as many components and each is the same. One
/// lies under the other where the first components are those of the other.
pub proof fn law_paths_are_compared_by_components(first: Seq<u8>, second: Seq<u8>)
    ensures
        path::same_path(first, second) <==> path::components(first).len() == path::components(
            second,
        ).len() && forall|i: int|
            0 <= i < path::components(first).len() ==> path::components(first)[i]
                == path::components(second)[i],
        path::starts_with(first, second) <==> path::components(second).len() <= path::components(
            first,
        ).len() && forall|i: int|
            0 <= i < path::components(second).len() ==> path::components(first)[i]
                == path::components(second)[i],
{
    let a = path::components(first);
    let b = path::components(second);
    if a.len() == b.len() && forall|i: int| 0 <= i < a.len() ==> a[i] == b[i] {
        assert(a == b);
    }
    if b.len() <= a.len() && forall|i: int| 0 <= i < b.len() ==> a[i] == b[i] {
        assert(b == a.subrange(0, b.len() as int));
    }
}

/// A path is absolute where its first byte is `/`, and leads through a parent directory
/// where one of its components is `..`.
pub proof fn law_kinds_of_paths(path: Seq<u8>)
    ensures
        path::is_absolute(path) <==> path.len() > 0 && path[0] == 47u8,
        path::contains_parent_reference(path) <==> path::components(path).contains(
            seq![46u8, 46u8],
        ),
{
    let all = path::components(path);
    if all.contains(seq![46u8, 46u8]) {
        let i = choose|i: int| 0 <= i < all.len() && all[i] == seq![46u8, 46u8];
        assert(path::is_parent_reference(all[i]));
    }
}

/// The file name is the last component, unless that is the root, `.` or `..`.
pub proof fn law_file_name(path: Seq<u8>)
    ensures
        ({
            let all = path::components(path);
            let named = all.len() > 0 && all.last() != seq![47u8] && all.last() != seq![46u8]
                && all.last() != seq![46u8, 46u8];
            path::file_name(path) == if named {
                Some(all.last())
            } else {
                None
            }
        }),
{
    let all = path::components(path);
    path::lemma_spans(path);
    if all.len() > 0 {
        let last = all.last();
        let span = path::spans(path)[all.len() - 1];
        assert(path.subrange(span.0, span.1) == last);
        if path::lead_length(path) == 1 && all.len() == 1 {
            assert(last == path.take(1));
            assert(last[0] == path[0]);
            assert(last == seq![path[0]]);
        } else {
            assert(path::is_component(last) && !last.contains(path::SEPARATOR));
        }
        if last == seq![47u8] {
            assert(last.contains(last[0]));
        }
    }
}

/// The parent is the part of the path that ends with the component before the last one.
/// Only the root and the empty path have none.
pub proof fn law_parent(path: Seq<u8>)
    ensures
        ({
            let all = path::components(path);
            &&& path::parent(path) is None <==> all.len() == 0 || all.last() == seq![47u8]
            &&& path::parent(path) matches Some(shorter) ==> {
                &&& shorter.len() < path.len()
                &&& shorter == path.take(shorter.len() as int)
                &&& path::components(shorter) == all.drop_last()
                &&& all.len() > 1 ==> shorter.len() >= all[all.len() - 2].len() && shorter.skip(
                    shorter.len() - all[all.len() - 2].len(),
                ) == all[all.len() - 2]
            }
        }),
{
    let all = path::components(path);
    path::law_parent_drops_last(path);
    path::lemma_spans(path);
    if let Some(shorter) = path::parent(path) {
        let last = path::spans(path)[all.len() - 1];
        if all.len() > 1 {
            let span = path::spans(path)[all.len() - 2];
            assert(span.1 <= last.0);
            assert(shorter == path.take(span.1));
            assert(path.subrange(span.0, span.1) == all[all.len() - 2]);
            assert(shorter.skip(span.0) == path.subrange(span.0, span.1));
        } else {
            assert(shorter == path.take(0));
        }
    }
}

/// An absolute path stands for itself, and so does every path that is taken from the empty
/// one. Otherwise the directory comes first and the path last, with one separator between
/// them, which may be the last byte of the directory.
pub proof fn law_join(base: Seq<u8>, path: Seq<u8>)
    ensures
        path.len() > 0 && path[0] == 47u8 || base.len() == 0 ==> path::join(base, path) == path,
        !(path.len() > 0 && path[0] == 47u8) && base.len() > 0 ==> {
            let joined = path::join(base, path);
            let between = if base.last() == 47u8 {
                0int
            } else {
                1int
            };
            &&& joined.len() == base.len() + between + path.len()
            &&& joined.take(base.len() as int) == base
            &&& joined.skip(base.len() + between) == path
            &&& joined[base.len() + between - 1] == 47u8
        },
{
    if !(path.len() > 0 && path[0] == 47u8) && base.len() > 0 {
        let joined = path::join(base, path);
        assert(joined.take(base.len() as int) == base);
        if base.last() == 47u8 {
            assert(joined.skip(base.len() as int) == path);
        } else {
            assert(joined.skip(base.len() + 1int) == path);
        }
    }
}

} // verus!
