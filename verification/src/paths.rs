//! Paths as lists of components: the name under which an entry is packed,
//! and the test that keeps unpacked entries below the output root.

use vstd::prelude::*;
use crate::bytes::{copy_bytes, same_bytes};

verus! {

/// One component of a path, as the platform's path parser gives it.
#[derive(Debug, Clone, PartialEq, Eq)]
pub enum Component {
    /// A volume or share prefix.
    Prefix(Vec<u8>),
    /// The root directory.
    Root,
    /// `.`
    Current,
    /// `..`
    Parent,
    /// A file or directory name.
    Normal(Vec<u8>),
}

/// A component as mathematics.
pub enum Part {
    Prefix(Seq<u8>),
    Root,
    Current,
    Parent,
    Normal(Seq<u8>),
}

impl View for Component {
    type V = Part;

    open spec fn view(&self) -> Part {
        match *self {
            Component::Prefix(s) => Part::Prefix(s@),
            Component::Root => Part::Root,
            Component::Current => Part::Current,
            Component::Parent => Part::Parent,
            Component::Normal(s) => Part::Normal(s@),
        }
    }
}

/// A path as mathematics: the views of its components, in order.
pub open spec fn path_view(path: Seq<Component>) -> Seq<Part> {
    Seq::new(path.len(), |i: int| path[i]@)
}

pub open spec fn is_anchor(part: Part) -> bool {
    part is Root || part is Prefix
}

/// A path that starts at a root or a prefix replaces the path it is joined
/// to.
pub open spec fn is_absolute(path: Seq<Part>) -> bool {
    path.len() > 0 && is_anchor(path[0])
}

pub open spec fn is_prefix(base: Seq<Part>, path: Seq<Part>) -> bool {
    &&& base.len() <= path.len()
    &&& forall|i: int| 0 <= i < base.len() ==> base[i] == path[i]
}

/// The path without its last component; none for the empty path and for one
/// that ends in a root or a prefix.
pub open spec fn spec_parent(path: Seq<Part>) -> Option<Seq<Part>> {
    if path.len() == 0 || is_anchor(path.last()) {
        None
    } else {
        Some(path.drop_last())
    }
}

/// The last component where it is a name.
pub open spec fn spec_file_name(path: Seq<Part>) -> Option<Seq<u8>> {
    if path.len() > 0 && path.last() is Normal {
        Some(path.last()->Normal_0)
    } else {
        None
    }
}

/// What is stripped from a scanned path: the parent of the packed
/// directory, so that the directory's own name stays in front; the
/// directory itself where it has no parent.
pub open spec fn spec_strip_base(root: Seq<Part>) -> Seq<Part> {
    match spec_parent(root) {
        Some(parent) => parent,
        None => root,
    }
}

/// The name `unknown`, under which a path without a name is packed.
pub open spec fn spec_unknown() -> Seq<u8> {
    seq![0x75u8, 0x6e, 0x6b, 0x6e, 0x6f, 0x77, 0x6e]
}

/// The name under which a scanned path is packed.
pub open spec fn spec_relative_path(path: Seq<Part>, root: Seq<Part>) -> Seq<Part> {
    let base = spec_strip_base(root);
    if is_prefix(base, path) {
        path.skip(base.len() as int)
    } else {
        match spec_file_name(path) {
            Some(name) => seq![Part::Normal(name)],
            None => seq![Part::Normal(spec_unknown())],
        }
    }
}

/// One step of resolving a path by its text alone: `.` is dropped, `..`
/// removes the name before it, stays put at a root or a prefix, and is kept
/// where nothing is left to remove.
pub open spec fn push_part(stack: Seq<Part>, part: Part) -> Seq<Part> {
    match part {
        Part::Current => stack,
        Part::Parent => if stack.len() > 0 && stack.last() is Normal {
            stack.drop_last()
        } else if stack.len() > 0 && is_anchor(stack.last()) {
            stack
        } else {
            stack.push(Part::Parent)
        },
        _ => stack.push(part),
    }
}

/// `parts` resolved one after the other on top of `stack`.
pub open spec fn resolve_onto(stack: Seq<Part>, parts: Seq<Part>) -> Seq<Part>
    decreases parts.len(),
{
    if parts.len() == 0 {
        stack
    } else {
        resolve_onto(push_part(stack, parts[0]), parts.skip(1))
    }
}

/// Where an archive entry lands: an absolute entry path stands for itself,
/// any other is resolved below the output root.
pub open spec fn spec_resolve(root: Seq<Part>, entry: Seq<Part>) -> Seq<Part> {
    if is_absolute(entry) {
        resolve_onto(Seq::empty(), entry)
    } else {
        resolve_onto(resolve_onto(Seq::empty(), root), entry)
    }
}

/// Whether the resolved path `landed` lies at or below the resolved path
/// `base`: it begins with `base` and does not climb from there.
pub open spec fn is_descendant(base: Seq<Part>, landed: Seq<Part>) -> bool {
    &&& is_prefix(base, landed)
    &&& forall|i: int| base.len() <= i < landed.len() ==> !(landed[i] is Parent)
}

/// Whether an archive entry lands at or below the output root. An absolute
/// entry can only be held against a root that is absolute itself: by its
/// text nothing is known of where a relative root lies.
pub open spec fn spec_is_under(root: Seq<Part>, entry: Seq<Part>) -> bool {
    &&& is_descendant(resolve_onto(Seq::empty(), root), spec_resolve(root, entry))
    &&& (is_absolute(entry) ==> is_absolute(resolve_onto(Seq::empty(), root)))
}

fn same_component(a: &Component, b: &Component) -> (same: bool)
    ensures
        same == (a@ == b@),
{
    match (a, b) {
        (Component::Prefix(x), Component::Prefix(y)) => same_bytes(x, y),
        (Component::Root, Component::Root) => true,
        (Component::Current, Component::Current) => true,
        (Component::Parent, Component::Parent) => true,
        (Component::Normal(x), Component::Normal(y)) => same_bytes(x, y),
        _ => false,
    }
}

fn copy_component(part: &Component) -> (copy: Component)
    ensures
        copy@ == part@,
{
    match part {
        Component::Prefix(s) => Component::Prefix(copy_bytes(s)),
        Component::Root => Component::Root,
        Component::Current => Component::Current,
        Component::Parent => Component::Parent,
        Component::Normal(s) => Component::Normal(copy_bytes(s)),
    }
}

fn is_anchor_component(part: &Component) -> (anchor: bool)
    ensures
        anchor == is_anchor(part@),
{
    match part {
        Component::Prefix(_) => true,
        Component::Root => true,
        _ => false,
    }
}

/// Whether `path` begins with all of `base`, component by component.
pub fn starts_with(path: &Vec<Component>, base: &Vec<Component>) -> (yes: bool)
    ensures
        yes == is_prefix(path_view(base@), path_view(path@)),
{
    assert(path_view(base@).take(base@.len() as int) =~= path_view(base@));
    starts_with_first(path, base.len(), base)
}

/// Whether `path` begins with the first `base_len` components of `base`.
fn starts_with_first(path: &Vec<Component>, base_len: usize, base: &Vec<Component>) -> (yes: bool)
    requires
        base_len <= base.len(),
    ensures
        yes == is_prefix(path_view(base@).take(base_len as int), path_view(path@)),
{
    if base_len > path.len() {
        return false;
    }
    let mut i: usize = 0;
    while i < base_len
        invariant
            i <= base_len <= base.len(),
            base_len <= path.len(),
            forall|j: int| 0 <= j < i ==> path_view(base@)[j] == path_view(path@)[j],
        decreases base_len - i,
    {
        if !same_component(&base[i], &path[i]) {
            assert(path_view(base@).take(base_len as int)[i as int] != path_view(path@)[i as int]);
            return false;
        }
        i = i + 1;
    }
    true
}

/// The name under which a scanned path is packed: the path without the
/// parent of the packed directory, so that the directory's own name comes
/// first. A path that does not lie below that parent is packed under its
/// last name, and under `unknown` where it has none.
pub fn relative_path(path: &Vec<Component>, root: &Vec<Component>) -> (relative: Vec<Component>)
    ensures
        path_view(relative@) == spec_relative_path(path_view(path@), path_view(root@)),
{
    let ghost p = path_view(path@);
    let ghost r = path_view(root@);
    let base_len: usize = if root.len() == 0 || is_anchor_component(&root[root.len() - 1]) {
        root.len()
    } else {
        root.len() - 1
    };
    assert(r.take(base_len as int) =~= spec_strip_base(r));
    if starts_with_first(path, base_len, root) {
        let mut relative: Vec<Component> = Vec::new();
        let mut i: usize = base_len;
        while i < path.len()
            invariant
                base_len <= i <= path.len(),
                relative@.len() == i - base_len,
                forall|j: int| 0 <= j < relative@.len() ==> relative@[j]@ == path@[base_len + j]@,
            decreases path.len() - i,
        {
            relative.push(copy_component(&path[i]));
            i = i + 1;
        }
        assert(path_view(relative@) =~= p.skip(base_len as int));
        relative
    } else {
        let mut relative: Vec<Component> = Vec::new();
        if path.len() > 0 {
            match &path[path.len() - 1] {
                Component::Normal(name) => {
                    relative.push(Component::Normal(copy_bytes(name)));
                    assert(path_view(relative@) =~= seq![Part::Normal(name@)]);
                    return relative;
                },
                _ => {},
            }
        }
        let unknown: Vec<u8> = vec![0x75u8, 0x6e, 0x6b, 0x6e, 0x6f, 0x77, 0x6e];
        relative.push(Component::Normal(unknown));
        assert(path_view(relative@) =~= seq![Part::Normal(spec_unknown())]);
        relative
    }
}

/// Resolves `parts` on top of `stack`, by their text alone.
fn resolve_into(stack: &mut Vec<Component>, parts: &Vec<Component>)
    ensures
        path_view(final(stack)@) == resolve_onto(path_view(old(stack)@), path_view(parts@)),
{
    let ghost all = path_view(parts@);
    let mut i: usize = 0;
    assert(all.skip(0) =~= all);
    while i < parts.len()
        invariant
            i <= parts.len(),
            all == path_view(parts@),
            resolve_onto(path_view(stack@), all.skip(i as int)) == resolve_onto(
                path_view(old(stack)@),
                all,
            ),
        decreases parts.len() - i,
    {
        let ghost before = path_view(stack@);
        assert(all.skip(i as int).skip(1) =~= all.skip(i + 1));
        assert(all.skip(i as int)[0] == parts@[i as int]@);
        match &parts[i] {
            Component::Current => {},
            Component::Parent => {
                let depth = stack.len();
                if depth > 0 && matches!(stack[depth - 1], Component::Normal(_)) {
                    stack.pop();
                    assert(path_view(stack@) =~= before.drop_last());
                } else if depth > 0 && is_anchor_component(&stack[depth - 1]) {
                } else {
                    stack.push(Component::Parent);
                    assert(path_view(stack@) =~= before.push(Part::Parent));
                }
            },
            other => {
                stack.push(copy_component(other));
                assert(path_view(stack@) =~= before.push(parts@[i as int]@));
            },
        }
        assert(path_view(stack@) == push_part(before, parts@[i as int]@));
        i = i + 1;
    }
}

/// A path resolved by its text alone.
pub fn resolve(parts: &Vec<Component>) -> (resolved: Vec<Component>)
    ensures
        path_view(resolved@) == resolve_onto(Seq::empty(), path_view(parts@)),
{
    let mut stack: Vec<Component> = Vec::new();
    assert(path_view(stack@) =~= Seq::empty());
    resolve_into(&mut stack, parts);
    stack
}

/// Whether the archive entry `entry`, unpacked into `root`, lands at or
/// below `root`, both resolved by their text alone. An entry with `..`
/// that climbs out of the root does not. An absolute entry does only where
/// the root is absolute too and the entry names a place below it; under a
/// relative root, such as `.`, every absolute entry is refused.
pub fn is_under(root: &Vec<Component>, entry: &Vec<Component>) -> (under: bool)
    ensures
        under == spec_is_under(path_view(root@), path_view(entry@)),
{
    let base = resolve(root);
    let landed = if entry.len() > 0 && is_anchor_component(&entry[0]) {
        if base.len() == 0 || !is_anchor_component(&base[0]) {
            return false;
        }
        resolve(entry)
    } else {
        let mut stack = resolve(root);
        resolve_into(&mut stack, entry);
        stack
    };
    if !starts_with(&landed, &base) {
        return false;
    }
    let mut i: usize = base.len();
    while i < landed.len()
        invariant
            base.len() <= i <= landed.len(),
            path_view(base@) == resolve_onto(Seq::empty(), path_view(root@)),
            path_view(landed@) == spec_resolve(path_view(root@), path_view(entry@)),
            is_prefix(path_view(base@), path_view(landed@)),
            forall|j: int| base.len() <= j < i ==> !(path_view(landed@)[j] is Parent),
        decreases landed.len() - i,
    {
        if matches!(landed[i], Component::Parent) {
            assert(path_view(landed@)[i as int] is Parent);
            return false;
        }
        i = i + 1;
    }
    true
}

/// Whether a path is made of names alone.
pub open spec fn is_plain(path: Seq<Part>) -> bool {
    forall|i: int| 0 <= i < path.len() ==> #[trigger] path[i] is Normal
}

/// Names resolve to themselves: they are appended to what came before.
pub proof fn lemma_names_resolve_to_themselves(stack: Seq<Part>, names: Seq<Part>)
    requires
        is_plain(names),
    ensures
        resolve_onto(stack, names) == stack + names,
    decreases names.len(),
{
    if names.len() == 0 {
        assert(stack + names =~= stack);
    } else {
        let rest = names.skip(1);
        assert(names[0] is Normal);
        assert forall|i: int| 0 <= i < rest.len() implies #[trigger] rest[i] is Normal by {
            assert(names[i + 1] is Normal);
        }
        lemma_names_resolve_to_themselves(stack.push(names[0]), rest);
        assert(stack.push(names[0]) + rest =~= stack + names);
    }
}

/// An archive entry whose path is made of names alone lands below the
/// output root, whatever the root is.
pub proof fn lemma_plain_entry_is_under(root: Seq<Part>, entry: Seq<Part>)
    requires
        is_plain(entry),
    ensures
        spec_is_under(root, entry),
{
    let base = resolve_onto(Seq::empty(), root);
    if entry.len() > 0 {
        assert(entry[0] is Normal);
    }
    lemma_names_resolve_to_themselves(base, entry);
    let landed = base + entry;
    assert forall|i: int| base.len() <= i < landed.len() implies !(landed[i] is Parent) by {
        assert(landed[i] == entry[i - base.len()]);
        assert(entry[i - base.len()] is Normal);
    }
}

/// An absolute archive entry is refused under every output root that is
/// not absolute itself once resolved, such as `.` or the empty path.
pub proof fn lemma_absolute_entry_needs_absolute_root(root: Seq<Part>, entry: Seq<Part>)
    requires
        is_absolute(entry),
        !is_absolute(resolve_onto(Seq::empty(), root)),
    ensures
        !spec_is_under(root, entry),
{
}

/// An archive entry that begins with `..` and goes on with names leaves an
/// output root made of names, unless the first of its names leads back
/// into the root.
pub proof fn lemma_climbing_entry_is_refused(root: Seq<Part>, entry: Seq<Part>)
    requires
        is_plain(root),
        entry.len() > 0,
        entry[0] is Parent,
        is_plain(entry.skip(1)),
        root.len() == 0 || entry.len() == 1 || entry[1] != root.last(),
    ensures
        !spec_is_under(root, entry),
{
    lemma_names_resolve_to_themselves(Seq::empty(), root);
    assert(Seq::<Part>::empty() + root =~= root);
    let base = resolve_onto(Seq::empty(), root);
    assert(base == root);
    let climbed = push_part(base, entry[0]);
    lemma_names_resolve_to_themselves(climbed, entry.skip(1));
    let landed = climbed + entry.skip(1);
    assert(resolve_onto(base, entry) == landed);
    if root.len() == 0 {
        assert(climbed =~= seq![Part::Parent]);
        assert(landed[0] is Parent);
    } else {
        assert(root.last() is Normal);
        assert(climbed == root.drop_last());
        if is_prefix(base, landed) {
            let at = root.len() - 1;
            if entry.len() == 1 {
                assert(landed.len() < base.len());
            } else {
                assert(landed[at] == entry.skip(1)[0]);
                assert(base[at] == landed[at]);
                assert(landed.len() >= base.len());
            }
        }
    }
}

} // verus!
