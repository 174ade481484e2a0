//! POSIX paths: byte strings whose components are separated by `/`.
//!
//! A path is taken as it is written; no component is resolved. Repeated and trailing
//! separators are skipped, and so is `.`, except at the start of a relative path. Systems
//! whose paths have drives or other separators are outside these rules.
use crate::text::{bytes_of, text_of};
use vstd::prelude::*;
use vstd::slice::slice_subrange;
use vstd::slice::slice_to_vec;
use vstd::utf8::*;

verus! {

/// The byte `/`.
pub const SEPARATOR: u8 = 47;

/// The byte `.`.
pub const DOT: u8 = 46;

/// The position of the first separator from `from` on, or the length of the path
/// where there is none.
pub open spec fn segment_end(path: Seq<u8>, from: int) -> int
    decreases path.len() - from,
{
    if from >= path.len() {
        path.len() as int
    } else if path[from] == SEPARATOR {
        from
    } else {
        segment_end(path, from + 1)
    }
}

/// True for a piece between separators that is a component: not empty and not `.`.
pub open spec fn is_component(piece: Seq<u8>) -> bool {
    piece.len() > 0 && piece != seq![DOT]
}

/// The components that start at `from` or later.
pub open spec fn components_from(path: Seq<u8>, from: int) -> Seq<Seq<u8>>
    decreases path.len() + 1 - from,
{
    if from >= path.len() {
        Seq::empty()
    } else {
        proof {
            lemma_segment_end(path, from);
        }
        let end = segment_end(path, from);
        let piece = path.subrange(from, end);
        let rest = components_from(path, end + 1);
        if is_component(piece) {
            seq![piece] + rest
        } else {
            rest
        }
    }
}

/// Where the components that start at `from` or later start and end.
pub open spec fn spans_from(path: Seq<u8>, from: int) -> Seq<(int, int)>
    decreases path.len() + 1 - from,
{
    if from >= path.len() {
        Seq::empty()
    } else {
        proof {
            lemma_segment_end(path, from);
        }
        let end = segment_end(path, from);
        let rest = spans_from(path, end + 1);
        if is_component(path.subrange(from, end)) {
            seq![(from, end)] + rest
        } else {
            rest
        }
    }
}

/// True for a path that starts at the root.
pub open spec fn is_absolute(path: Seq<u8>) -> bool {
    path.len() > 0 && path[0] == SEPARATOR
}

/// True for a relative path whose first component is `.`.
pub open spec fn starts_with_dot(path: Seq<u8>) -> bool {
    path.len() > 0 && path[0] == DOT && (path.len() == 1 || path[1] == SEPARATOR)
}

/// How many bytes the root, or the `.` at the start, takes up.
pub open spec fn lead_length(path: Seq<u8>) -> int {
    if is_absolute(path) || starts_with_dot(path) {
        1
    } else {
        0
    }
}

/// Where the components start and end.
pub open spec fn spans(path: Seq<u8>) -> Seq<(int, int)> {
    if lead_length(path) == 1 {
        seq![(0int, 1int)] + spans_from(path, 1)
    } else {
        spans_from(path, 0)
    }
}

/// The components of a path. The root is the component `/`.
pub open spec fn components(path: Seq<u8>) -> Seq<Seq<u8>> {
    if lead_length(path) == 1 {
        seq![path.take(1)] + components_from(path, 1)
    } else {
        components_from(path, 0)
    }
}

/// True when the two paths are written with the same components.
pub open spec fn same_path(a: Seq<u8>, b: Seq<u8>) -> bool {
    components(a) == components(b)
}

/// True when the first components of `path` are those of `base`.
pub open spec fn starts_with(path: Seq<u8>, base: Seq<u8>) -> bool {
    components(base).is_prefix_of(components(path))
}

/// True for a component that leads to the parent directory.
pub open spec fn is_parent_reference(component: Seq<u8>) -> bool {
    component == seq![DOT, DOT]
}

/// True for a component that names an entry of a directory.
pub open spec fn is_name(component: Seq<u8>) -> bool {
    &&& component.len() > 0
    &&& !component.contains(SEPARATOR)
    &&& component != seq![DOT]
    &&& !is_parent_reference(component)
}

/// True when some component leads to the parent directory.
pub open spec fn contains_parent_reference(path: Seq<u8>) -> bool {
    exists|i: int|
        0 <= i < components(path).len() && is_parent_reference(#[trigger] components(path)[i])
}

/// The last component, where it names an entry of a directory.
pub open spec fn file_name(path: Seq<u8>) -> Option<Seq<u8>> {
    if components(path).len() > 0 && is_name(components(path).last()) {
        Some(components(path).last())
    } else {
        None
    }
}

/// The path up to the end of the component before the last one. There is none for
/// the root and for the empty path.
pub open spec fn parent(path: Seq<u8>) -> Option<Seq<u8>> {
    let count = components(path).len();
    if count == 0 || components(path).last() == seq![SEPARATOR] {
        None
    } else if count == 1 {
        Some(Seq::empty())
    } else {
        Some(path.take(spans(path)[count - 2].1))
    }
}

/// `path` taken from the directory `base`: an absolute path stands for itself.
pub open spec fn join(base: Seq<u8>, path: Seq<u8>) -> Seq<u8> {
    if is_absolute(path) || base.len() == 0 {
        path
    } else if base.last() == SEPARATOR {
        base + path
    } else {
        base.push(SEPARATOR) + path
    }
}

/// A segment ends at or behind its start, within the path, and holds no separator.
pub proof fn lemma_segment_end(path: Seq<u8>, from: int)
    requires
        from <= path.len(),
    ensures
        from <= segment_end(path, from) <= path.len(),
        forall|i: int| from <= i < segment_end(path, from) ==> #[trigger] path[i] != SEPARATOR,
        segment_end(path, from) < path.len() ==> path[segment_end(path, from)] == SEPARATOR,
    decreases path.len() - from,
{
    if from < path.len() && path[from] != SEPARATOR {
        lemma_segment_end(path, from + 1);
    }
}

/// A segment ends at the first separator behind its start.
pub proof fn lemma_segment_end_is(path: Seq<u8>, from: int, end: int)
    requires
        0 <= from <= end <= path.len(),
        forall|i: int| from <= i < end ==> #[trigger] path[i] != SEPARATOR,
        end < path.len() ==> path[end] == SEPARATOR,
    ensures
        segment_end(path, from) == end,
{
    lemma_segment_end(path, from);
    let found = segment_end(path, from);
    if found < end {
        assert(path[found] == SEPARATOR);
    } else if end < found {
        assert(path[end] != SEPARATOR);
    }
}

proof fn lemma_spans_from(path: Seq<u8>, from: int)
    requires
        0 <= from,
    ensures
        spans_from(path, from).len() == components_from(path, from).len(),
        forall|k: int|
            0 <= k < spans_from(path, from).len() ==> {
                let span = #[trigger] spans_from(path, from)[k];
                &&& from <= span.0 < span.1 <= path.len()
                &&& path.subrange(span.0, span.1) == components_from(path, from)[k]
                &&& is_component(components_from(path, from)[k])
                &&& !components_from(path, from)[k].contains(SEPARATOR)
                &&& segment_end(path, span.0) == span.1
            },
        forall|j: int, k: int|
            0 <= j < k < spans_from(path, from).len() ==> (#[trigger] spans_from(path, from)[j]).1
                < (#[trigger] spans_from(path, from)[k]).0,
    decreases path.len() + 1 - from,
{
    if from < path.len() {
        lemma_segment_end(path, from);
        let end = segment_end(path, from);
        lemma_spans_from(path, end + 1);
        let rest = spans_from(path, end + 1);
        let all = spans_from(path, from);
        let piece = path.subrange(from, end);
        if is_component(piece) {
            assert forall|k: int| 0 <= k < all.len() implies {
                let span = #[trigger] all[k];
                &&& from <= span.0 < span.1 <= path.len()
                &&& path.subrange(span.0, span.1) == components_from(path, from)[k]
                &&& is_component(components_from(path, from)[k])
                &&& !components_from(path, from)[k].contains(SEPARATOR)
                &&& segment_end(path, span.0) == span.1
            } by {
                if k > 0 {
                    assert(all[k] == rest[k - 1]);
                    assert(components_from(path, from)[k] == components_from(path, end + 1)[k - 1]);
                }
            }
            assert forall|j: int, k: int| 0 <= j < k < all.len() implies (#[trigger] all[j]).1 < (
            #[trigger] all[k]).0 by {
                assert(all[k] == rest[k - 1]);
                if j > 0 {
                    assert(all[j] == rest[j - 1]);
                }
            }
        }
    }
}

/// Every component is what its span holds. The first one is the root, `.` or a
/// piece; every later one is a piece without separators that is not `.`.
pub proof fn lemma_spans(path: Seq<u8>)
    ensures
        spans(path).len() == components(path).len(),
        forall|k: int|
            0 <= k < spans(path).len() ==> {
                let span = #[trigger] spans(path)[k];
                &&& 0 <= span.0 < span.1 <= path.len()
                &&& path.subrange(span.0, span.1) == components(path)[k]
            },
        forall|j: int, k: int|
            0 <= j < k < spans(path).len() ==> (#[trigger] spans(path)[j]).1 <= (
            #[trigger] spans(path)[k]).0,
        forall|k: int|
            lead_length(path) <= k < components(path).len() ==> is_component(
                #[trigger] components(path)[k],
            ) && !components(path)[k].contains(SEPARATOR),
{
    lemma_spans_from(path, 0);
    lemma_spans_from(path, 1);
    if lead_length(path) == 1 {
        let body = spans_from(path, 1);
        let all = spans(path);
        assert(path.take(1) == path.subrange(0, 1));
        assert forall|k: int| 0 <= k < all.len() implies {
            let span = #[trigger] all[k];
            &&& 0 <= span.0 < span.1 <= path.len()
            &&& path.subrange(span.0, span.1) == components(path)[k]
        } by {
            if k > 0 {
                assert(all[k] == body[k - 1]);
                assert(components(path)[k] == components_from(path, 1)[k - 1]);
            }
        }
        assert forall|j: int, k: int| 0 <= j < k < all.len() implies (#[trigger] all[j]).1 <= (
        #[trigger] all[k]).0 by {
            assert(all[k] == body[k - 1]);
            if j > 0 {
                assert(all[j] == body[j - 1]);
            }
        }
        assert forall|k: int| 1 <= k < components(path).len() implies is_component(
            #[trigger] components(path)[k],
        ) && !components(path)[k].contains(SEPARATOR) by {
            assert(body[k - 1] == all[k]);
            assert(components(path)[k] == components_from(path, 1)[k - 1]);
        }
    } else {
        let all = spans(path);
        assert forall|k: int| 0 <= k < components(path).len() implies is_component(
            #[trigger] components(path)[k],
        ) && !components(path)[k].contains(SEPARATOR) by {
            assert(all[k] == spans_from(path, 0)[k]);
        }
    }
}

proof fn lemma_spans_from_take(path: Seq<u8>, from: int, k: int)
    requires
        0 <= from,
        0 <= k < spans_from(path, from).len(),
    ensures
        spans_from(path.take(spans_from(path, from)[k].1), from) == spans_from(path, from).take(
            k + 1,
        ),
        components_from(path.take(spans_from(path, from)[k].1), from) == components_from(
            path,
            from,
        ).take(k + 1),
    decreases path.len() + 1 - from,
{
    lemma_spans_from(path, from);
    if from < path.len() {
        let cut = spans_from(path, from)[k].1;
        let short = path.take(cut);
        lemma_segment_end(path, from);
        let end = segment_end(path, from);
        lemma_spans_from(path, end + 1);
        let rest = spans_from(path, end + 1);
        let piece = path.subrange(from, end);
        if is_component(piece) {
            if k == 0 {
                assert(cut == end);
                lemma_segment_end_is(short, from, end);
                assert(short.subrange(from, end) == piece);
                assert(spans_from(short, end + 1) == Seq::<(int, int)>::empty());
                assert(components_from(short, end + 1) == Seq::<Seq<u8>>::empty());
            } else {
                assert(spans_from(path, from)[k] == rest[k - 1]);
                lemma_spans_from_take(path, end + 1, k - 1);
                assert(end < cut);
                lemma_segment_end_is(short, from, end);
                assert(short.subrange(from, end) == piece);
            }
            assert(spans_from(short, from) == spans_from(path, from).take(k + 1));
            assert(components_from(short, from) == components_from(path, from).take(k + 1));
        } else {
            lemma_spans_from_take(path, end + 1, k);
            assert(end < cut);
            lemma_segment_end_is(short, from, end);
            assert(short.subrange(from, end) == piece);
        }
    }
}

/// The path cut off behind a component has the components up to that one.
pub proof fn lemma_take_components(path: Seq<u8>, k: int)
    requires
        0 <= k < spans(path).len(),
    ensures
        components(path.take(spans(path)[k].1)) == components(path).take(k + 1),
{
    lemma_spans(path);
    lemma_spans_from(path, 0);
    lemma_spans_from(path, 1);
    let cut = spans(path)[k].1;
    let short = path.take(cut);
    if lead_length(path) == 1 {
        if k == 0 {
            assert(components_from(short, 1) == Seq::<Seq<u8>>::empty());
            assert(short.take(1) == path.take(1));
            assert(components(short) == components(path).take(1));
        } else {
            assert(spans(path)[k] == spans_from(path, 1)[k - 1]);
            lemma_spans_from_take(path, 1, k - 1);
            assert(short[0] == path[0]);
            assert(short[1] == path[1]);
            assert(short.take(1) == path.take(1));
            assert(components(short) == components(path).take(k + 1));
        }
    } else {
        lemma_spans_from_take(path, 0, k);
        let first = spans_from(path, 0)[0];
        assert(first.1 <= cut);
        assert(short[0] == path[0]);
        if path[0] == DOT {
            lemma_segment_end(path, 0);
            if path.len() > 1 {
                assert(path[1] != SEPARATOR);
            }
            if cut == 1 {
                assert(first.0 == 0 && first.1 == 1);
                assert(segment_end(path, 0) == 1);
                assert(path.len() == 1);
            } else {
                assert(short[1] == path[1]);
            }
        }
    }
}

/// The parent of a path has all of its components but the last.
pub proof fn law_parent_drops_last(path: Seq<u8>)
    ensures
        parent(path) matches Some(shorter) ==> {
            &&& components(path).len() > 0
            &&& components(shorter) == components(path).drop_last()
        },
{
    lemma_spans(path);
    let count = components(path).len();
    if let Some(shorter) = parent(path) {
        if count == 1 {
            assert(components(Seq::<u8>::empty()) == Seq::<Seq<u8>>::empty());
            assert(components(path).drop_last() == Seq::<Seq<u8>>::empty());
        } else {
            lemma_take_components(path, count - 2);
            assert(components(path).drop_last() == components(path).take(count - 1));
        }
    }
}

/// A path that ends in a name has a parent.
pub proof fn law_named_path_has_parent(path: Seq<u8>)
    ensures
        file_name(path) is Some ==> parent(path) is Some,
{
    if file_name(path) is Some {
        let last = components(path).last();
        if last == seq![SEPARATOR] {
            assert(last.contains(last[0]));
        }
    }
}

proof fn lemma_components_shift(prefix: Seq<u8>, path: Seq<u8>, from: int)
    requires
        0 <= from,
    ensures
        components_from(prefix + path, prefix.len() + from) == components_from(path, from),
    decreases path.len() + 1 - from,
{
    let all = prefix + path;
    let at = prefix.len() + from;
    if from < path.len() {
        lemma_segment_end(path, from);
        let end = segment_end(path, from);
        assert forall|i: int| at <= i < prefix.len() + end implies #[trigger] all[i]
            != SEPARATOR by {
            assert(all[i] == path[i - prefix.len()]);
        }
        lemma_segment_end_is(all, at, prefix.len() + end);
        assert(all.subrange(at, prefix.len() + end) == path.subrange(from, end));
        lemma_components_shift(prefix, path, end + 1);
    }
}

/// What stands before and behind a separator has its components apart.
pub proof fn lemma_components_separated(first: Seq<u8>, second: Seq<u8>, from: int)
    requires
        0 <= from <= first.len() + 1,
    ensures
        components_from(first.push(SEPARATOR) + second, from) == components_from(first, from)
            + components_from(second, 0),
    decreases first.len() + 1 - from,
{
    let all = first.push(SEPARATOR) + second;
    lemma_components_shift(first.push(SEPARATOR), second, 0);
    if from == first.len() + 1 {
        assert(components_from(first, from) == Seq::<Seq<u8>>::empty());
        assert(components_from(all, from) == Seq::<Seq<u8>>::empty() + components_from(second, 0));
    } else if from == first.len() {
        assert(all[from] == SEPARATOR);
        lemma_segment_end_is(all, from, from);
        assert(all.subrange(from, from).len() == 0);
        assert(components_from(first, from) == Seq::<Seq<u8>>::empty());
        assert(components_from(all, from) == Seq::<Seq<u8>>::empty() + components_from(second, 0));
    } else {
        lemma_segment_end(first, from);
        let end = segment_end(first, from);
        assert forall|i: int| from <= i < end implies #[trigger] all[i] != SEPARATOR by {
            assert(all[i] == first[i]);
        }
        assert(end < first.len() ==> all[end] == first[end]);
        lemma_segment_end_is(all, from, end);
        let piece = first.subrange(from, end);
        assert(all.subrange(from, end) == piece);
        lemma_components_separated(first, second, end + 1);
        let rest = components_from(first, end + 1);
        let more = components_from(second, 0);
        if is_component(piece) {
            assert(seq![piece] + (rest + more) == (seq![piece] + rest) + more);
        }
    }
}

/// A relative path joined to a directory adds its components to those of the
/// directory, without a `.` at its start.
pub proof fn law_join_components(base: Seq<u8>, path: Seq<u8>)
    ensures
        is_absolute(path) || base.len() == 0 ==> components(join(base, path)) == components(path),
        !is_absolute(path) && base.len() > 0 ==> components(join(base, path)) == components(base)
            + components_from(path, 0),
{
    if !is_absolute(path) && base.len() > 0 {
        let all = join(base, path);
        let lead = lead_length(base);
        let more = components_from(path, 0);
        assert(all[0] == base[0]);
        if base.last() == SEPARATOR {
            let first = base.drop_last();
            assert(first.push(SEPARATOR) == base);
            assert(first.push(SEPARATOR) + Seq::<u8>::empty() == base);
            lemma_components_separated(first, path, lead);
            lemma_components_separated(first, Seq::empty(), lead);
            assert(components_from(Seq::<u8>::empty(), 0) == Seq::<Seq<u8>>::empty());
            assert(components_from(first, lead) + Seq::<Seq<u8>>::empty() == components_from(
                first,
                lead,
            ));
            assert(base.len() > 1 ==> all[1] == base[1]);
        } else {
            lemma_components_separated(base, path, lead);
            assert(all[1] == (if base.len() > 1 {
                base[1]
            } else {
                SEPARATOR
            }));
        }
        assert(components_from(all, lead) == components_from(base, lead) + more);
        assert(lead_length(all) == lead);
        if lead == 1 {
            assert(all.take(1) == base.take(1));
            assert(seq![base.take(1)] + (components_from(base, 1) + more) == (seq![base.take(1)]
                + components_from(base, 1)) + more);
        }
    }
}

/// A relative path joined to a directory stays under that directory, as written.
pub proof fn law_join_stays_under(base: Seq<u8>, path: Seq<u8>)
    requires
        !is_absolute(path),
    ensures
        starts_with(join(base, path), base),
{
    law_join_components(base, path);
    if base.len() == 0 {
        assert(components(base) == Seq::<Seq<u8>>::empty());
    }
}

/// A name is its own only component.
pub proof fn lemma_name_components(name: Seq<u8>)
    requires
        is_name(name),
    ensures
        !is_absolute(name),
        components(name) == seq![name],
        components_from(name, 0) == seq![name],
{
    assert(name.contains(name[0]));
    assert forall|i: int| 0 <= i < name.len() implies #[trigger] name[i] != SEPARATOR by {
        assert(name.contains(name[i]));
    }
    lemma_segment_end_is(name, 0, name.len() as int);
    assert(name.subrange(0, name.len() as int) == name);
    assert(components_from(name, name.len() as int + 1) == Seq::<Seq<u8>>::empty());
    assert(seq![name] + Seq::<Seq<u8>>::empty() == seq![name]);
    if starts_with_dot(name) {
        assert(name.len() == 1);
        assert(name == seq![DOT]);
    }
}

/// A name joined to a directory becomes the last component.
pub proof fn law_join_name(base: Seq<u8>, name: Seq<u8>)
    requires
        is_name(name),
    ensures
        components(join(base, name)) == components(base).push(name),
        file_name(join(base, name)) == Some(name),
        starts_with(join(base, name), base),
{
    lemma_name_components(name);
    law_join_components(base, name);
    if base.len() == 0 {
        assert(components(base) == Seq::<Seq<u8>>::empty());
    }
    assert(components(join(base, name)) == components(base).push(name));
}

/// Only the empty path has no components.
pub proof fn law_only_the_empty_path_has_no_components(path: Seq<u8>)
    ensures
        components(path).len() == 0 <==> path.len() == 0,
{
    if path.len() > 0 && lead_length(path) == 0 {
        lemma_segment_end(path, 0);
        let end = segment_end(path, 0);
        let piece = path.subrange(0, end);
        if piece == seq![DOT] {
            assert(piece.len() == 1);
            assert(piece[0] == path[0]);
        }
        assert(is_component(piece));
    }
}

/// Starting with a path is kept along longer paths.
pub proof fn law_starts_with_transitive(path: Seq<u8>, middle: Seq<u8>, base: Seq<u8>)
    requires
        starts_with(path, middle),
        starts_with(middle, base),
    ensures
        starts_with(path, base),
{
    assert forall|i: int| 0 <= i < components(base).len() implies components(base)[i]
        == components(path)[i] by {
        assert(components(base)[i] == components(middle)[i]);
    }
    assert(components(base) == components(path).subrange(0, components(base).len() as int));
}

/// The paths as byte sequences.
pub open spec fn path_bytes(paths: Seq<PosixPath>) -> Seq<Seq<u8>> {
    paths.map_values(|p: PosixPath| p@)
}

/// The bytes of the path, where there is one.
pub open spec fn optional_bytes(path: Option<PosixPath>) -> Option<Seq<u8>> {
    match path {
        Some(path) => Some(path@),
        None => None,
    }
}

/// A path, as the bytes that it is written with.
#[derive(Debug)]
pub struct PosixPath {
    bytes: Vec<u8>,
}

impl View for PosixPath {
    type V = Seq<u8>;

    closed spec fn view(&self) -> Seq<u8> {
        self.bytes@
    }
}

impl DeepView for PosixPath {
    type V = Seq<u8>;

    open spec fn deep_view(&self) -> Seq<u8> {
        self@
    }
}

impl Clone for PosixPath {
    fn clone(&self) -> (copy: Self)
        ensures
            copy@ == self@,
    {
        PosixPath { bytes: slice_to_vec(self.bytes.as_slice()) }
    }
}

impl PosixPath {
    /// The path that is written with `bytes`.
    pub fn from_bytes(bytes: Vec<u8>) -> (path: Self)
        ensures
            path@ == bytes@,
    {
        PosixPath { bytes }
    }

    /// The path that is written with the UTF-8 bytes of `text`.
    pub fn from_text(text: &str) -> (path: Self)
        ensures
            path@ == encode_utf8(text@),
    {
        PosixPath { bytes: bytes_of(text) }
    }

    /// The bytes that the path is written with.
    pub fn as_bytes(&self) -> (bytes: &[u8])
        ensures
            bytes@ == self@,
    {
        self.bytes.as_slice()
    }

    /// The path as text, with replacement characters for what is not UTF-8.
    pub fn display(&self) -> (text: String)
        ensures
            text@ == crate::text::as_text(self@),
    {
        text_of(self.bytes.as_slice())
    }

    /// True for the path without bytes.
    pub fn is_empty(&self) -> (empty: bool)
        ensures
            empty == (self@.len() == 0),
    {
        self.bytes.len() == 0
    }

    /// True for a path that does not start at the root.
    pub fn is_relative(&self) -> (relative: bool)
        ensures
            relative == !is_absolute(self@),
    {
        self.bytes.len() == 0 || self.bytes[0] != SEPARATOR
    }

    /// Where the components start and end.
    fn spans(&self) -> (found: Vec<(usize, usize)>)
        ensures
            span_ints(found@) == spans(self@),
            found@.len() == components(self@).len(),
            forall|k: int|
                0 <= k < found@.len() ==> {
                    let span = #[trigger] found@[k];
                    &&& span.0 < span.1 <= self@.len()
                    &&& self@.subrange(span.0 as int, span.1 as int) == components(self@)[k]
                },
    {
        let mut found: Vec<(usize, usize)> = Vec::new();
        let length: usize = self.bytes.len();
        let mut from: usize = 0;
        if length > 0 && (self.bytes[0] == SEPARATOR || (self.bytes[0] == DOT && (length == 1
            || self.bytes[1] == SEPARATOR))) {
            found.push((0, 1));
            from = 1;
        }
        assert(span_ints(found@) + spans_from(self@, from as int) == spans(self@));
        while from < length
            invariant
                length == self@.len(),
                length == self.bytes@.len(),
                self.bytes@ == self@,
                span_ints(found@) + spans_from(self@, from as int) == spans(self@),
            decreases length - from,
        {
            let mut end: usize = from;
            while end < length && self.bytes[end] != SEPARATOR
                invariant
                    length == self.bytes@.len(),
                    self.bytes@ == self@,
                    from <= end <= length,
                    segment_end(self@, from as int) == segment_end(self@, end as int),
                decreases length - end,
            {
                end += 1;
            }
            assert(end == segment_end(self@, from as int));
            let ghost piece = self@.subrange(from as int, end as int);
            let ghost before = found@;
            if end > from && !(end - from == 1 && self.bytes[from] == DOT) {
                assert(piece != seq![DOT]) by {
                    if piece == seq![DOT] {
                        assert(piece.len() == 1);
                        assert(piece[0] == DOT);
                    }
                }
                found.push((from, end));
                assert(span_ints(found@) == span_ints(before).push((from as int, end as int)));
                assert(span_ints(found@) + spans_from(self@, end + 1) == span_ints(before) + (
                seq![(from as int, end as int)] + spans_from(self@, end + 1)));
            } else {
                assert(!is_component(piece)) by {
                    if end - from == 1 {
                        assert(piece == seq![DOT]);
                    }
                }
            }
            if end == length {
                assert(spans_from(self@, end + 1) == spans_from(self@, end as int));
                from = end;
            } else {
                from = end + 1;
            }
        }
        assert(spans_from(self@, from as int) == Seq::<(int, int)>::empty());
        assert(span_ints(found@) == spans(self@));
        proof {
            lemma_spans(self@);
            assert forall|k: int| 0 <= k < found@.len() implies {
                let span = #[trigger] found@[k];
                &&& span.0 < span.1 <= self@.len()
                &&& self@.subrange(span.0 as int, span.1 as int) == components(self@)[k]
            } by {
                assert(spans(self@)[k] == span_ints(found@)[k]);
            }
        }
        found
    }

    /// True when the two ranges of the two paths hold the same bytes.
    fn same_bytes(&self, range: (usize, usize), other: &PosixPath, other_range: (usize, usize)) -> (
    same: bool)
        requires
            range.0 <= range.1 <= self@.len(),
            other_range.0 <= other_range.1 <= other@.len(),
        ensures
            same == (self@.subrange(range.0 as int, range.1 as int) == other@.subrange(
                other_range.0 as int,
                other_range.1 as int,
            )),
    {
        let ghost left = self@.subrange(range.0 as int, range.1 as int);
        let ghost right = other@.subrange(other_range.0 as int, other_range.1 as int);
        let length: usize = range.1 - range.0;
        if length != other_range.1 - other_range.0 {
            assert(left.len() != right.len());
            return false;
        }
        let mut i: usize = 0;
        while i < length
            invariant
                i <= length,
                length == range.1 - range.0,
                length == other_range.1 - other_range.0,
                range.0 <= range.1 <= self.bytes@.len(),
                other_range.0 <= other_range.1 <= other.bytes@.len(),
                self@ == self.bytes@,
                other@ == other.bytes@,
                left == self@.subrange(range.0 as int, range.1 as int),
                right == other@.subrange(other_range.0 as int, other_range.1 as int),
                forall|j: int| 0 <= j < i ==> left[j] == right[j],
            decreases length - i,
        {
            if self.bytes[range.0 + i] != other.bytes[other_range.0 + i] {
                assert(left[i as int] != right[i as int]);
                return false;
            }
            i += 1;
        }
        assert(left == right);
        true
    }

    /// True when the first components of this path are those of `base`.
    pub fn starts_with(&self, base: &PosixPath) -> (found: bool)
        ensures
            found == starts_with(self@, base@),
    {
        let own = self.spans();
        let others = base.spans();
        if own.len() < others.len() {
            return false;
        }
        let mut i: usize = 0;
        while i < others.len()
            invariant
                i <= others.len() <= own.len(),
                span_ints(own@) == spans(self@),
                span_ints(others@) == spans(base@),
                own.len() == components(self@).len(),
                others.len() == components(base@).len(),
                forall|k: int|
                    0 <= k < own@.len() ==> {
                        let span = #[trigger] own@[k];
                        &&& span.0 <= span.1 <= self@.len()
                        &&& self@.subrange(span.0 as int, span.1 as int) == components(self@)[k]
                    },
                forall|k: int|
                    0 <= k < others@.len() ==> {
                        let span = #[trigger] others@[k];
                        &&& span.0 <= span.1 <= base@.len()
                        &&& base@.subrange(span.0 as int, span.1 as int) == components(base@)[k]
                    },
                forall|k: int| 0 <= k < i ==> components(self@)[k] == components(base@)[k],
            decreases others.len() - i,
        {
            if !self.same_bytes(own[i], base, others[i]) {
                assert(components(self@)[i as int] != components(base@)[i as int]);
                return false;
            }
            i += 1;
        }
        assert(components(base@) == components(self@).subrange(0, components(base@).len() as int));
        true
    }

    /// True when the two paths are written with the same components.
    pub fn same_path(&self, other: &PosixPath) -> (same: bool)
        ensures
            same == same_path(self@, other@),
    {
        let found = self.starts_with(other) && other.starts_with(self);
        proof {
            if starts_with(self@, other@) && starts_with(other@, self@) {
                assert(components(self@) == components(other@));
            }
        }
        found
    }

    /// True when some component leads to the parent directory.
    pub fn contains_parent_reference(&self) -> (found: bool)
        ensures
            found == contains_parent_reference(self@),
    {
        let own = self.spans();
        let mut i: usize = 0;
        while i < own.len()
            invariant
                i <= own.len(),
                self.bytes@ == self@,
                own.len() == components(self@).len(),
                forall|k: int|
                    0 <= k < own@.len() ==> {
                        let span = #[trigger] own@[k];
                        &&& span.0 <= span.1 <= self@.len()
                        &&& self@.subrange(span.0 as int, span.1 as int) == components(self@)[k]
                    },
                forall|k: int| 0 <= k < i ==> !is_parent_reference(#[trigger] components(self@)[k]),
            decreases own.len() - i,
        {
            let (start, end) = own[i];
            let ghost component = components(self@)[i as int];
            if end - start == 2 && self.bytes[start] == DOT && self.bytes[start + 1] == DOT {
                assert(component == seq![DOT, DOT]);
                assert(is_parent_reference(components(self@)[i as int]));
                return true;
            }
            assert(!is_parent_reference(component)) by {
                if component == seq![DOT, DOT] {
                    assert(component.len() == 2 && component[0] == DOT && component[1] == DOT);
                }
            }
            i += 1;
        }
        false
    }

    /// The last component, where it names an entry of a directory.
    pub fn file_name(&self) -> (name: Option<Vec<u8>>)
        ensures
            name is Some <==> file_name(self@) is Some,
            name matches Some(name) ==> file_name(self@) == Some(name@),
    {
        let own = self.spans();
        proof {
            lemma_spans(self@);
        }
        if own.len() == 0 {
            return None;
        }
        let last: usize = own.len() - 1;
        let (start, end) = own[last];
        assert(spans(self@)[last as int] == (start as int, end as int));
        let ghost component = components(self@).last();
        assert(component == self@.subrange(start as int, end as int));
        let is_root = end - start == 1 && self.bytes[start] == SEPARATOR;
        let is_dot = end - start == 1 && self.bytes[start] == DOT;
        let is_parent = end - start == 2 && self.bytes[start] == DOT && self.bytes[start + 1]
            == DOT;
        proof {
            if is_root {
                assert(component.contains(component[0]));
            }
            if component == seq![DOT] {
                assert(component.len() == 1 && component[0] == DOT);
            }
            if is_dot {
                assert(component == seq![DOT]);
            }
            if component == seq![DOT, DOT] {
                assert(component.len() == 2 && component[0] == DOT && component[1] == DOT);
            }
            if is_parent {
                assert(component == seq![DOT, DOT]);
            }
            if component.contains(SEPARATOR) {
                assert(last < lead_length(self@));
                assert(component == self@.take(1));
                assert(component.len() == 1);
            }
        }
        if is_root || is_dot || is_parent {
            None
        } else {
            Some(slice_to_vec(slice_subrange(self.bytes.as_slice(), start, end)))
        }
    }

    /// The path up to the end of the component before the last one.
    pub fn parent(&self) -> (shorter: Option<PosixPath>)
        ensures
            optional_bytes(shorter) == parent(self@),
    {
        let own = self.spans();
        proof {
            lemma_spans(self@);
        }
        if own.len() == 0 {
            return None;
        }
        let last: usize = own.len() - 1;
        let (start, end) = own[last];
        assert(spans(self@)[last as int] == (start as int, end as int));
        let ghost component = components(self@).last();
        assert(component == self@.subrange(start as int, end as int));
        if end - start == 1 && self.bytes[start] == SEPARATOR {
            assert(component == seq![SEPARATOR]);
            return None;
        }
        assert(component != seq![SEPARATOR]) by {
            if component == seq![SEPARATOR] {
                assert(component.len() == 1 && component[0] == SEPARATOR);
            }
        }
        if last == 0 {
            return Some(PosixPath { bytes: Vec::new() });
        }
        let cut: usize = own[last - 1].1;
        assert(spans(self@)[last - 1].1 == cut);
        let bytes = slice_to_vec(slice_subrange(self.bytes.as_slice(), 0, cut));
        assert(bytes@ == self@.take(cut as int));
        Some(PosixPath { bytes })
    }

    /// `path` taken from this directory: an absolute path stands for itself.
    pub fn join(&self, path: &PosixPath) -> (joined: PosixPath)
        ensures
            joined@ == join(self@, path@),
    {
        self.join_bytes(path.bytes.as_slice())
    }

    /// The path written with `bytes`, taken from this directory: an absolute path
    /// stands for itself.
    pub fn join_bytes(&self, bytes: &[u8]) -> (joined: PosixPath)
        ensures
            joined@ == join(self@, bytes@),
    {
        if self.bytes.len() == 0 || (bytes.len() > 0 && bytes[0] == SEPARATOR) {
            return PosixPath { bytes: slice_to_vec(bytes) };
        }
        let mut all = slice_to_vec(self.bytes.as_slice());
        if self.bytes[self.bytes.len() - 1] != SEPARATOR {
            all.push(SEPARATOR);
        }
        let mut rest = slice_to_vec(bytes);
        all.append(&mut rest);
        PosixPath { bytes: all }
    }
}

/// The spans as integers.
pub open spec fn span_ints(found: Seq<(usize, usize)>) -> Seq<(int, int)> {
    found.map_values(|span: (usize, usize)| (span.0 as int, span.1 as int))
}

} // verus!
