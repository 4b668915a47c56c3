//! Paths as lists of components, the form in which the operating system's
//! path rules compare, cut and extend them.

use vstd::prelude::*;
use vstd::utf8::encode_utf8;

verus! {

/// One component of a path.
#[derive(Debug, PartialEq, Eq)]
pub enum PathComponent {
    /// A drive or share name, on platforms that have them.
    Prefix(Vec<u8>),
    /// The separator that makes a path absolute.
    RootDir,
    /// A leading `.`.
    CurDir,
    /// A `..`.
    ParentDir,
    /// The name of a file or directory.
    Normal(Vec<u8>),
}

/// What a [`PathComponent`] stands for.
pub enum ComponentView {
    Prefix(Seq<u8>),
    RootDir,
    CurDir,
    ParentDir,
    Normal(Seq<u8>),
}

/// A path. Two paths are the same where their components are.
#[derive(Debug, PartialEq, Eq)]
pub struct DirPath {
    pub components: Vec<PathComponent>,
}

impl View for PathComponent {
    type V = ComponentView;

    open spec fn view(&self) -> ComponentView {
        match *self {
            PathComponent::Prefix(name) => ComponentView::Prefix(name@),
            PathComponent::RootDir => ComponentView::RootDir,
            PathComponent::CurDir => ComponentView::CurDir,
            PathComponent::ParentDir => ComponentView::ParentDir,
            PathComponent::Normal(name) => ComponentView::Normal(name@),
        }
    }
}

impl View for DirPath {
    type V = Seq<ComponentView>;

    open spec fn view(&self) -> Seq<ComponentView> {
        self.components@.map_values(|component: PathComponent| component@)
    }
}

impl Clone for PathComponent {
    fn clone(&self) -> (copy: Self)
        ensures
            copy@ == self@,
    {
        match self {
            PathComponent::Prefix(name) => PathComponent::Prefix(copy_bytes(name)),
            PathComponent::RootDir => PathComponent::RootDir,
            PathComponent::CurDir => PathComponent::CurDir,
            PathComponent::ParentDir => PathComponent::ParentDir,
            PathComponent::Normal(name) => PathComponent::Normal(copy_bytes(name)),
        }
    }
}

impl Clone for DirPath {
    fn clone(&self) -> (copy: Self)
        ensures
            copy@ == self@,
    {
        self.first_components(self.components.len())
    }
}

fn copy_bytes(bytes: &Vec<u8>) -> (copy: Vec<u8>)
    ensures
        copy@ == bytes@,
{
    let copy = bytes.clone();
    assert(copy@ =~= bytes@);
    copy
}

/// Whether two byte strings are equal.
pub fn same_bytes(first: &Vec<u8>, second: &Vec<u8>) -> (same: bool)
    ensures
        same == (first@ == second@),
{
    if first.len() != second.len() {
        return false;
    }
    let mut index: usize = 0;
    while index < first.len()
        invariant
            index <= first.len(),
            first.len() == second.len(),
            forall|i: int| 0 <= i < index ==> first[i] == second[i],
        decreases first.len() - index,
    {
        if first[index] != second[index] {
            assert(first@[index as int] != second@[index as int]);
            return false;
        }
        index = index + 1;
    }
    assert(first@ =~= second@);
    true
}

/// The path above a path: there is none above the empty path, a root or a drive.
pub open spec fn path_parent(path: Seq<ComponentView>) -> Option<Seq<ComponentView>> {
    if path.len() == 0 {
        None
    } else {
        match path.last() {
            ComponentView::Prefix(_) | ComponentView::RootDir => None,
            _ => Some(path.drop_last()),
        }
    }
}

/// The last component of a path, where that is a name.
pub open spec fn path_file_name(path: Seq<ComponentView>) -> Option<Seq<u8>> {
    if path.len() == 0 {
        None
    } else {
        match path.last() {
            ComponentView::Normal(name) => Some(name),
            _ => None,
        }
    }
}

/// Whether `base` is `path` or a path above it.
pub open spec fn path_starts_with(path: Seq<ComponentView>, base: Seq<ComponentView>) -> bool {
    base.len() <= path.len() && path.take(base.len() as int) == base
}

/// Whether a file name has the extension `json`: it ends in `.json` and has
/// something before that.
pub open spec fn has_json_extension(name: Seq<u8>) -> bool {
    name.len() > 5 && name.skip(name.len() - 5) == encode_utf8(".json"@)
}

impl PathComponent {
    /// A component that is the given name.
    pub fn named(name: &str) -> (component: Self)
        ensures
            component@ == ComponentView::Normal(encode_utf8(name@)),
    {
        PathComponent::Normal(name.as_bytes_vec())
    }

    /// Whether two components are the same.
    pub fn same(&self, other: &Self) -> (same: bool)
        ensures
            same == (self@ == other@),
    {
        match (self, other) {
            (PathComponent::Prefix(first), PathComponent::Prefix(second)) => same_bytes(
                first,
                second,
            ),
            (PathComponent::RootDir, PathComponent::RootDir) => true,
            (PathComponent::CurDir, PathComponent::CurDir) => true,
            (PathComponent::ParentDir, PathComponent::ParentDir) => true,
            (PathComponent::Normal(first), PathComponent::Normal(second)) => same_bytes(
                first,
                second,
            ),
            _ => false,
        }
    }
}

impl DirPath {
    /// The path made of the first `count` components of this one.
    pub fn first_components(&self, count: usize) -> (path: Self)
        requires
            count <= self@.len(),
        ensures
            path@ == self@.take(count as int),
    {
        let mut components: Vec<PathComponent> = Vec::new();
        let mut index: usize = 0;
        while index < count
            invariant
                index <= count <= self@.len(),
                components@.len() == index,
                forall|i: int| 0 <= i < index ==> (#[trigger] components@[i])@ == self@[i],
            decreases count - index,
        {
            components.push(self.components[index].clone());
            index = index + 1;
        }
        let path = DirPath { components };
        assert(path@ =~= self@.take(count as int));
        path
    }

    /// Whether two paths are the same.
    pub fn same(&self, other: &Self) -> (same: bool)
        ensures
            same == (self@ == other@),
    {
        let starts = self.starts_with(other);
        if self.components.len() == other.components.len() {
            assert(self@.take(other@.len() as int) =~= self@);
            starts
        } else {
            assert(self@.len() != other@.len());
            false
        }
    }

    /// Whether `base` is this path or a path above it.
    pub fn starts_with(&self, base: &Self) -> (starts: bool)
        ensures
            starts == path_starts_with(self@, base@),
    {
        if base.components.len() > self.components.len() {
            return false;
        }
        let mut index: usize = 0;
        while index < base.components.len()
            invariant
                index <= base.components.len() <= self.components.len(),
                forall|i: int| 0 <= i < index ==> #[trigger] self@[i] == base@[i],
            decreases base.components.len() - index,
        {
            if !self.components[index].same(&base.components[index]) {
                assert(self@.take(base@.len() as int)[index as int] != base@[index as int]);
                return false;
            }
            assert(self@[index as int] == base@[index as int]);
            index = index + 1;
        }
        assert(self@.take(base@.len() as int) =~= base@);
        true
    }

    /// The path above this one, unless this is empty, a root or a drive.
    pub fn parent(&self) -> (parent: Option<Self>)
        ensures
            parent.is_some() == path_parent(self@).is_some(),
            parent matches Some(path) ==> Some(path@) == path_parent(self@),
    {
        let count = self.components.len();
        if count == 0 {
            return None;
        }
        assert(self@.last() == self.components@[count - 1]@);
        match &self.components[count - 1] {
            PathComponent::Prefix(_) | PathComponent::RootDir => None,
            _ => {
                assert(self@.take(count - 1) =~= self@.drop_last());
                Some(self.first_components(count - 1))
            },
        }
    }

    /// The name that this path ends in, if it ends in one.
    pub fn file_name(&self) -> (name: Option<Vec<u8>>)
        ensures
            name.is_some() == path_file_name(self@).is_some(),
            name matches Some(bytes) ==> Some(bytes@) == path_file_name(self@),
    {
        let count = self.components.len();
        if count == 0 {
            return None;
        }
        assert(self@.last() == self.components@[count - 1]@);
        match &self.components[count - 1] {
            PathComponent::Normal(name) => Some(copy_bytes(name)),
            _ => None,
        }
    }

    /// Whether this path ends in a name with the extension `json`.
    pub fn is_json_file(&self) -> (is_json: bool)
        ensures
            is_json == (path_file_name(self@) matches Some(name) && has_json_extension(name)),
    {
        match self.file_name() {
            None => false,
            Some(name) => {
                let extension = ".json".as_bytes_vec();
                if name.len() <= 5 {
                    return false;
                }
                let mut tail: Vec<u8> = Vec::new();
                let start: usize = name.len() - 5;
                let mut index: usize = start;
                while index < name.len()
                    invariant
                        start == name.len() - 5,
                        start <= index <= name.len(),
                        tail@ == name@.subrange(start as int, index as int),
                    decreases name.len() - index,
                {
                    tail.push(name[index]);
                    index = index + 1;
                    assert(tail@ =~= name@.subrange(start as int, index as int));
                }
                assert(tail@ =~= name@.skip(name@.len() - 5));
                same_bytes(&tail, &extension)
            },
        }
    }

    /// Extends this path by a name.
    pub fn push_name(&mut self, name: &str)
        ensures
            final(self)@ == old(self)@.push(ComponentView::Normal(encode_utf8(name@))),
    {
        let ghost before = self@;
        self.components.push(PathComponent::named(name));
        assert(self@ =~= before.push(ComponentView::Normal(encode_utf8(name@))));
    }
}

/// The end of a path's text after its last separator.
pub open spec fn text_after_separator(text: Seq<char>) -> Seq<char>
    decreases text.len(),
{
    if text.len() == 0 || text.last() == '/' {
        Seq::empty()
    } else {
        text_after_separator(text.drop_last()).push(text.last())
    }
}

/// The file name in a path's text: what stands after the last separator.
/// Separators and `.` components at the end are passed over; a path that ends
/// in `..` has no file name, nor has a root or an empty path.
pub open spec fn text_file_name(text: Seq<char>) -> Option<Seq<char>>
    decreases text.len(),
{
    if text.len() == 0 {
        None
    } else if text.last() == '/' {
        text_file_name(text.drop_last())
    } else if text_after_separator(text) == seq!['.'] {
        text_file_name(text.drop_last())
    } else if text_after_separator(text) == seq!['.', '.'] {
        None
    } else {
        Some(text_after_separator(text))
    }
}

proof fn lemma_text_after_separator(text: Seq<char>, start: int)
    requires
        0 <= start <= text.len(),
        start == 0 || text[start - 1] == '/',
        forall|i: int| start <= i < text.len() ==> text[i] != '/',
    ensures
        text_after_separator(text) == text.skip(start),
    decreases text.len(),
{
    if start < text.len() {
        lemma_text_after_separator(text.drop_last(), start);
        assert(text.skip(start) =~= text.drop_last().skip(start).push(text.last()));
    } else {
        assert(text.skip(start) =~= Seq::<char>::empty());
    }
}

/// Finds the file name in a path's text.
pub fn file_name_of(text: &str) -> (name: Option<String>)
    ensures
        name.is_some() == text_file_name(text@).is_some(),
        name matches Some(found) ==> Some(found@) == text_file_name(text@),
{
    let mut end: usize = text.unicode_len();
    assert(text@.take(end as int) =~= text@);
    while end > 0
        invariant
            end <= text@.len(),
            text_file_name(text@) == text_file_name(text@.take(end as int)),
        decreases end,
    {
        let ghost head = text@.take(end as int);
        assert(head.drop_last() =~= text@.take(end - 1));
        assert(head.last() == text@[end - 1]);
        if text.get_char(end - 1) == '/' {
            end = end - 1;
        } else {
            let mut start: usize = end - 1;
            while start > 0 && text.get_char(start - 1) != '/'
                invariant
                    start < end <= text@.len(),
                    forall|i: int| start <= i < end ==> text@[i] != '/',
                decreases start,
            {
                start = start - 1;
            }
            proof {
                lemma_text_after_separator(head, start as int);
                assert(head.skip(start as int) =~= text@.subrange(start as int, end as int));
            }
            let length: usize = end - start;
            if length == 1 && text.get_char(start) == '.' {
                assert(text_after_separator(head) =~= seq!['.']);
                end = end - 1;
            } else if length == 2 && text.get_char(start) == '.' && text.get_char(start + 1)
                == '.' {
                assert(text_after_separator(head) =~= seq!['.', '.']);
                return None;
            } else {
                proof {
                    let found = text_after_separator(head);
                    if found == seq!['.'] {
                        assert(found.len() == 1 && found[0] == '.');
                    }
                    if found == seq!['.', '.'] {
                        assert(found.len() == 2 && found[0] == '.' && found[1] == '.');
                    }
                }
                return Some(text.substring_char(start, end).to_owned());
            }
        }
    }
    None
}

/// A path is its components, each kept with its kind and its name.
pub proof fn law_a_path_is_its_components(path: DirPath, index: int)
    requires
        0 <= index < path.components@.len(),
    ensures
        path@.len() == path.components@.len(),
        match path.components@[index] {
            PathComponent::Prefix(name) => path@[index] == ComponentView::Prefix(name@),
            PathComponent::RootDir => path@[index] == ComponentView::RootDir,
            PathComponent::CurDir => path@[index] == ComponentView::CurDir,
            PathComponent::ParentDir => path@[index] == ComponentView::ParentDir,
            PathComponent::Normal(name) => path@[index] == ComponentView::Normal(name@),
        },
{
}

/// The path above one that a component was added to is the path that it was
/// added to, and the file name is what was added. There is none above a root, a
/// drive or the empty path, and only a name is a file name.
pub proof fn law_the_last_component_is_below_the_rest(
    path: Seq<ComponentView>,
    component: ComponentView,
    name: Seq<u8>,
)
    ensures
        path_parent(path.push(ComponentView::Normal(name))) == Some(path),
        path_parent(path.push(ComponentView::CurDir)) == Some(path),
        path_parent(path.push(ComponentView::ParentDir)) == Some(path),
        path_parent(path.push(ComponentView::RootDir)).is_none(),
        path_parent(path.push(ComponentView::Prefix(name))).is_none(),
        path_parent(Seq::empty()).is_none(),
        path_file_name(path.push(component)) == Some(name) <==> component == ComponentView::Normal(
            name,
        ),
        path_file_name(path.push(component)).is_some() ==> component is Normal,
        path_file_name(Seq::empty()).is_none(),
{
    assert(path.push(ComponentView::Normal(name)).drop_last() =~= path);
    assert(path.push(ComponentView::CurDir).drop_last() =~= path);
    assert(path.push(ComponentView::ParentDir).drop_last() =~= path);
}

/// A path starts with another when and only when it is that one with components
/// added.
pub proof fn law_a_path_starts_with_what_it_extends(
    path: Seq<ComponentView>,
    base: Seq<ComponentView>,
    rest: Seq<ComponentView>,
)
    ensures
        path_starts_with(base + rest, base),
        path_starts_with(path, base) ==> path == base + path.skip(base.len() as int),
{
    assert((base + rest).take(base.len() as int) =~= base);
    if path_starts_with(path, base) {
        assert(path =~= path.take(base.len() as int) + path.skip(base.len() as int));
    }
}

/// The names with the extension are those that have something before `.json`.
pub proof fn law_json_names_end_in_json(name: Seq<u8>, stem: Seq<u8>)
    ensures
        stem.len() > 0 ==> has_json_extension(stem + seq![0x2eu8, 0x6a, 0x73, 0x6f, 0x6e]),
        has_json_extension(name) ==> name.len() > 5 && name == name.take(name.len() - 5) + seq![
            0x2eu8,
            0x6a,
            0x73,
            0x6f,
            0x6e,
        ],
{
    reveal_strlit(".json");
    let ending = seq![0x2eu8, 0x6a, 0x73, 0x6f, 0x6e];
    assert(vstd::utf8::is_ascii_chars(".json"@));
    vstd::utf8::is_ascii_chars_encode_utf8(".json"@);
    assert(encode_utf8(".json"@) =~= ending);
    assert((stem + ending).skip(stem.len() as int) =~= ending);
    if has_json_extension(name) {
        assert(name =~= name.take(name.len() - 5) + name.skip(name.len() - 5));
    }
}

/// The file name in a text is the last name in it, whatever stands before, and
/// whatever separators and single dots stand behind. Two dots are no file name,
/// nor is a single one alone.
pub proof fn law_the_last_name_in_a_text_is_the_file_name(head: Seq<char>, name: Seq<char>)
    requires
        name.len() > 0,
        !name.contains('/'),
        name != seq!['.'],
        name != seq!['.', '.'],
    ensures
        text_file_name(name) == Some(name),
        text_file_name(head.push('/') + name) == Some(name),
        text_file_name(head.push('/')) == text_file_name(head),
        text_file_name(head + seq!['/', '.']) == text_file_name(head),
        text_file_name(head + seq!['/', '.', '.']).is_none(),
        text_file_name(seq!['.', '.']).is_none(),
        text_file_name(seq!['.']).is_none(),
        text_file_name(Seq::empty()).is_none(),
{
    assert forall|i: int| 0 <= i < name.len() implies name[i] != '/' by {
        if name[i] == '/' {
            assert(name.contains('/'));
        }
    }
    lemma_text_after_separator(name, 0);
    assert(name.skip(0) =~= name);

    let start = head.len() as int + 1;
    let below = head.push('/') + name;
    lemma_text_after_separator(below, start);
    assert(below.skip(start) =~= name);

    assert(head.push('/').drop_last() =~= head);

    let dot = head + seq!['/', '.'];
    lemma_text_after_separator(dot, start);
    assert(dot.skip(start) =~= seq!['.']);
    assert(dot.drop_last() =~= head.push('/'));

    let dots = head + seq!['/', '.', '.'];
    lemma_text_after_separator(dots, start);
    assert(dots.skip(start) =~= seq!['.', '.']);

    lemma_text_after_separator(seq!['.', '.'], 0);
    assert(seq!['.', '.'].skip(0) =~= seq!['.', '.']);
    assert(seq!['.', '.'].len() == 2 && seq!['.'].len() == 1);
    lemma_text_after_separator(seq!['.'], 0);
    assert(seq!['.'].skip(0) =~= seq!['.']);
    assert(seq!['.'].drop_last() =~= Seq::empty());
    assert(text_file_name(Seq::empty()).is_none());
}

} // verus!
