//! Document paths as component lists.
//!
//! Two paths are the same path when their components agree, whatever separators or
//! redundant `.` segments their text was written with.
use vstd::prelude::*;

verus! {

/// One component of a path, in the order the platform lists them.
#[derive(Debug, PartialEq, Eq, Hash)]
pub enum PathComponent {
    /// A drive or share prefix.
    Prefix(String),
    /// The root directory.
    RootDir,
    /// `.`
    CurDir,
    /// `..`
    ParentDir,
    /// A named file or directory.
    Normal(String),
}

/// What a `PathComponent` stands for in specifications.
pub enum ComponentView {
    Prefix(Seq<char>),
    RootDir,
    CurDir,
    ParentDir,
    Normal(Seq<char>),
}

impl View for PathComponent {
    type V = ComponentView;

    open spec fn view(&self) -> ComponentView {
        match self {
            PathComponent::Prefix(text) => ComponentView::Prefix(text@),
            PathComponent::RootDir => ComponentView::RootDir,
            PathComponent::CurDir => ComponentView::CurDir,
            PathComponent::ParentDir => ComponentView::ParentDir,
            PathComponent::Normal(text) => ComponentView::Normal(text@),
        }
    }
}

impl Clone for PathComponent {
    fn clone(&self) -> (res: Self)
        ensures
            res@ == self@,
    {
        match self {
            PathComponent::Prefix(text) => PathComponent::Prefix(text.clone()),
            PathComponent::RootDir => PathComponent::RootDir,
            PathComponent::CurDir => PathComponent::CurDir,
            PathComponent::ParentDir => PathComponent::ParentDir,
            PathComponent::Normal(text) => PathComponent::Normal(text.clone()),
        }
    }
}

impl PathComponent {
    /// Whether two components are the same.
    pub fn same(&self, other: &PathComponent) -> (res: bool)
        ensures
            res == (self@ == other@),
    {
        match (self, other) {
            (PathComponent::Prefix(a), PathComponent::Prefix(b)) => *a == *b,
            (PathComponent::RootDir, PathComponent::RootDir) => true,
            (PathComponent::CurDir, PathComponent::CurDir) => true,
            (PathComponent::ParentDir, PathComponent::ParentDir) => true,
            (PathComponent::Normal(a), PathComponent::Normal(b)) => *a == *b,
            _ => false,
        }
    }
}

/// The components of a sequence of exec components.
pub open spec fn component_views(components: Seq<PathComponent>) -> Seq<ComponentView> {
    Seq::new(components.len(), |i: int| components[i]@)
}

/// A path to a document: its components, and whether the platform counts it as absolute.
#[derive(Debug, PartialEq, Eq, Hash)]
pub struct DocumentPath {
    pub absolute: bool,
    pub components: Vec<PathComponent>,
}

/// What a `DocumentPath` stands for in specifications.
#[verifier::ext_equal]
pub struct PathView {
    pub absolute: bool,
    pub parts: Seq<ComponentView>,
}

impl View for DocumentPath {
    type V = PathView;

    open spec fn view(&self) -> PathView {
        PathView { absolute: self.absolute, parts: component_views(self.components@) }
    }
}

/// Paths are equal when their components are.
pub open spec fn same_path(a: PathView, b: PathView) -> bool {
    a.parts == b.parts
}

impl Clone for DocumentPath {
    fn clone(&self) -> (res: Self)
        ensures
            res@ == self@,
    {
        let mut components: Vec<PathComponent> = Vec::new();
        let mut i: usize = 0;
        while i < self.components.len()
            invariant
                i <= self.components.len(),
                components.len() == i,
                forall|k: int| 0 <= k < i ==> components@[k]@ == self.components@[k]@,
            decreases self.components.len() - i,
        {
            components.push(self.components[i].clone());
            i += 1;
        }
        let res = DocumentPath { absolute: self.absolute, components };
        assert(res@.parts =~= self@.parts);
        res
    }
}

impl DocumentPath {
    /// Whether two paths are the same path.
    pub fn same(&self, other: &DocumentPath) -> (res: bool)
        ensures
            res == same_path(self@, other@),
    {
        if self.components.len() != other.components.len() {
            assert(self@.parts.len() != other@.parts.len());
            return false;
        }
        let mut i: usize = 0;
        while i < self.components.len()
            invariant
                i <= self.components.len(),
                self.components.len() == other.components.len(),
                forall|k: int| 0 <= k < i ==> self@.parts[k] == other@.parts[k],
            decreases self.components.len() - i,
        {
            if !self.components[i].same(&other.components[i]) {
                assert(self@.parts[i as int] != other@.parts[i as int]);
                return false;
            }
            i += 1;
        }
        assert(self@.parts =~= other@.parts);
        true
    }
}

/// The lexical normal form of a component list: `.` is dropped, and `..` removes the
/// component before it when that is a name, and is dropped otherwise.
pub open spec fn normalized(parts: Seq<ComponentView>) -> Seq<ComponentView>
    decreases parts.len(),
{
    if parts.len() == 0 {
        parts
    } else {
        let before = normalized(parts.drop_last());
        match parts.last() {
            ComponentView::CurDir => before,
            ComponentView::ParentDir => if before.len() > 0 && before.last() is Normal {
                before.drop_last()
            } else {
                before
            },
            other => before.push(other),
        }
    }
}

/// A component list without `.` and `..`.
pub open spec fn is_normal_form(parts: Seq<ComponentView>) -> bool {
    forall|i: int|
        0 <= i < parts.len() ==> !((#[trigger] parts[i]) is CurDir) && !(parts[i] is ParentDir)
}

/// Lexically resolves `.` and `..` without asking the file system.
pub fn normalize_path(path: &DocumentPath) -> (res: DocumentPath)
    ensures
        res@.parts == normalized(path@.parts),
        res@.absolute == path@.absolute,
{
    let mut components: Vec<PathComponent> = Vec::new();
    let mut i: usize = 0;
    while i < path.components.len()
        invariant
            i <= path.components.len(),
            component_views(components@) == normalized(path@.parts.take(i as int)),
        decreases path.components.len() - i,
    {
        let ghost before = components@;
        let ghost prefix = path@.parts.take(i as int);
        proof {
            let next = path@.parts.take(i + 1);
            assert(next.drop_last() =~= prefix);
            assert(next.last() == path.components@[i as int]@);
        }
        match &path.components[i] {
            PathComponent::CurDir => {},
            PathComponent::ParentDir => {
                let count: usize = components.len();
                if count > 0 && matches!(components[count - 1], PathComponent::Normal(_)) {
                    let _removed = components.pop();
                    assert(component_views(components@) =~= component_views(before).drop_last());
                }
            },
            other => {
                components.push(other.clone());
                assert(component_views(components@) =~= component_views(before).push(other@));
            },
        }
        i += 1;
    }
    assert(path@.parts.take(i as int) =~= path@.parts);
    DocumentPath { absolute: path.absolute, components }
}

/// The normal form holds neither `.` nor `..`.
pub proof fn normalized_is_normal_form(parts: Seq<ComponentView>)
    ensures
        is_normal_form(normalized(parts)),
        normalized(parts).len() <= parts.len(),
    decreases parts.len(),
{
    if parts.len() > 0 {
        normalized_is_normal_form(parts.drop_last());
    }
}

/// A path is its own normal form exactly when it holds neither `.` nor `..`.
pub proof fn normalized_fixes_exactly_the_normal_forms(parts: Seq<ComponentView>)
    ensures
        (normalized(parts) == parts) == is_normal_form(parts),
    decreases parts.len(),
{
    normalized_is_normal_form(parts);
    if parts.len() > 0 && is_normal_form(parts) {
        let before = parts.drop_last();
        assert(is_normal_form(before)) by {
            assert forall|i: int| 0 <= i < before.len() implies !((#[trigger] before[i]) is CurDir)
                && !(before[i] is ParentDir) by {
                assert(before[i] == parts[i]);
            }
        }
        normalized_fixes_exactly_the_normal_forms(before);
        assert(before.push(parts.last()) =~= parts);
        let last = parts[parts.len() - 1];
        assert(!(last is CurDir) && !(last is ParentDir));
    }
}

/// Normalizing twice changes nothing more.
pub proof fn normalizing_is_idempotent(parts: Seq<ComponentView>)
    ensures
        normalized(normalized(parts)) == normalized(parts),
{
    normalized_is_normal_form(parts);
    normalized_fixes_exactly_the_normal_forms(normalized(parts));
}

/// A name or a root stays where it stands, and `.` leads nowhere.
pub proof fn names_stay_and_dots_lead_nowhere(parts: Seq<ComponentView>, next: ComponentView)
    ensures
        next is Normal || next is RootDir || next is Prefix ==> normalized(parts.push(next))
            == normalized(parts).push(next),
        next is CurDir ==> normalized(parts.push(next)) == normalized(parts),
{
    assert(parts.push(next).drop_last() =~= parts);
}

/// A name followed by `..` leads back to where it was; above a root or at the start, `..` leads
/// nowhere.
pub proof fn parents_lead_back(parts: Seq<ComponentView>, name: Seq<char>)
    ensures
        normalized(parts.push(ComponentView::Normal(name)).push(ComponentView::ParentDir))
            == normalized(parts),
        normalized(parts.push(ComponentView::RootDir).push(ComponentView::ParentDir))
            == normalized(parts.push(ComponentView::RootDir)),
        normalized(seq![ComponentView::ParentDir]).len() == 0,
{
    let named = parts.push(ComponentView::Normal(name));
    let rooted = parts.push(ComponentView::RootDir);
    names_stay_and_dots_lead_nowhere(parts, ComponentView::Normal(name));
    names_stay_and_dots_lead_nowhere(parts, ComponentView::RootDir);
    assert(named.push(ComponentView::ParentDir).drop_last() =~= named);
    assert(rooted.push(ComponentView::ParentDir).drop_last() =~= rooted);
    assert(normalized(named).drop_last() =~= normalized(parts));
    assert(seq![ComponentView::ParentDir].drop_last() =~= Seq::<ComponentView>::empty());
    reveal_with_fuel(normalized, 2);
}

/// A path may be normalized in parts: what comes first can be normalized before the rest is added.
pub proof fn paths_normalize_in_parts(first: Seq<ComponentView>, rest: Seq<ComponentView>)
    ensures
        normalized(normalized(first) + rest) == normalized(first + rest),
    decreases rest.len(),
{
    if rest.len() == 0 {
        assert(normalized(first) + rest =~= normalized(first));
        assert(first + rest =~= first);
        normalizing_is_idempotent(first);
    } else {
        paths_normalize_in_parts(first, rest.drop_last());
        assert((normalized(first) + rest).drop_last() =~= normalized(first) + rest.drop_last());
        assert((first + rest).drop_last() =~= first + rest.drop_last());
    }
}

/// Paths are the same exactly if they have the same parts.
pub proof fn same_paths_have_the_same_parts(a: PathView, b: PathView)
    ensures
        same_path(a, b) == (a.parts.len() == b.parts.len() && forall|i: int|
            0 <= i < a.parts.len() ==> #[trigger] a.parts[i] == b.parts[i]),
{
    if a.parts.len() == b.parts.len() && forall|i: int|
        0 <= i < a.parts.len() ==> #[trigger] a.parts[i] == b.parts[i] {
        assert(a.parts =~= b.parts);
    }
}

} // verus!
