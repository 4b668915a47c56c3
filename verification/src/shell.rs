//! The shell that a terminal or an environment probe starts.

use vstd::prelude::*;

verus! {

/// A shell.
#[derive(Debug, PartialEq, Eq)]
pub enum Shell {
    /// The user's login shell.
    System,
    /// A program without arguments.
    Program(String),
    /// A program with arguments.
    WithArguments { program: String, args: Vec<String>, title_override: Option<String> },
}

/// What a [`Shell`] stands for.
pub enum ShellView {
    System,
    Program(Seq<char>),
    WithArguments {
        program: Seq<char>,
        args: Seq<Seq<char>>,
        title_override: Option<Seq<char>>,
    },
}

/// The texts in a list of strings.
pub open spec fn texts(strings: Seq<String>) -> Seq<Seq<char>> {
    strings.map_values(|string: String| string@)
}

impl View for Shell {
    type V = ShellView;

    open spec fn view(&self) -> ShellView {
        match *self {
            Shell::System => ShellView::System,
            Shell::Program(program) => ShellView::Program(program@),
            Shell::WithArguments { program, args, title_override } => ShellView::WithArguments {
                program: program@,
                args: texts(args@),
                title_override: match title_override {
                    Some(title) => Some(title@),
                    None => None,
                },
            },
        }
    }
}

fn copy_strings(strings: &Vec<String>) -> (copy: Vec<String>)
    ensures
        texts(copy@) == texts(strings@),
{
    let copy = strings.clone();
    assert(texts(copy@) =~= texts(strings@));
    copy
}

fn same_strings(first: &Vec<String>, second: &Vec<String>) -> (same: bool)
    ensures
        same == (texts(first@) == texts(second@)),
{
    if first.len() != second.len() {
        assert(texts(first@).len() != texts(second@).len());
        return false;
    }
    let mut index: usize = 0;
    while index < first.len()
        invariant
            index <= first.len(),
            first.len() == second.len(),
            forall|i: int| 0 <= i < index ==> #[trigger] first@[i]@ == second@[i]@,
        decreases first.len() - index,
    {
        if first[index] != second[index] {
            assert(texts(first@)[index as int] != texts(second@)[index as int]);
            return false;
        }
        index = index + 1;
    }
    assert(texts(first@) =~= texts(second@));
    true
}

impl Clone for Shell {
    fn clone(&self) -> (copy: Self)
        ensures
            copy@ == self@,
    {
        match self {
            Shell::System => Shell::System,
            Shell::Program(program) => Shell::Program(program.clone()),
            Shell::WithArguments { program, args, title_override } => Shell::WithArguments {
                program: program.clone(),
                args: copy_strings(args),
                title_override: match title_override {
                    Some(title) => Some(title.clone()),
                    None => None,
                },
            },
        }
    }
}

impl Shell {
    /// Whether two shells are the same.
    pub fn same(&self, other: &Self) -> (same: bool)
        ensures
            same == (self@ == other@),
    {
        match (self, other) {
            (Shell::System, Shell::System) => true,
            (Shell::Program(first), Shell::Program(second)) => *first == *second,
            (
                Shell::WithArguments { program: p1, args: a1, title_override: t1 },
                Shell::WithArguments { program: p2, args: a2, title_override: t2 },
            ) => {
                let same_title = match (t1, t2) {
                    (Some(first), Some(second)) => *first == *second,
                    (None, None) => true,
                    _ => false,
                };
                *p1 == *p2 && same_strings(a1, a2) && same_title
            },
            _ => false,
        }
    }
}

/// Shells are the same when and only when they are so in every part: the kind,
/// the program, the number of arguments and each of them, and the title.
pub proof fn law_shells_are_told_apart(first: Shell, second: Shell)
    ensures
        first@ == second@ <==> match (first, second) {
            (Shell::System, Shell::System) => true,
            (Shell::Program(one), Shell::Program(other)) => one@ == other@,
            (
                Shell::WithArguments { program: p1, args: a1, title_override: t1 },
                Shell::WithArguments { program: p2, args: a2, title_override: t2 },
            ) => {
                &&& p1@ == p2@
                &&& a1@.len() == a2@.len()
                &&& forall|i: int| 0 <= i < a1@.len() ==> (#[trigger] a1@[i])@ == a2@[i]@
                &&& match (t1, t2) {
                    (Some(one), Some(other)) => one@ == other@,
                    (None, None) => true,
                    _ => false,
                }
            },
            _ => false,
        },
        first is System <==> first@ == ShellView::System,
        first matches Shell::Program(program) ==> first@ == ShellView::Program(program@),
{
    if let (
        Shell::WithArguments { args: a1, .. },
        Shell::WithArguments { args: a2, .. },
    ) = (first, second) {
        if first@ == second@ {
            assert(texts(a1@).len() == texts(a2@).len());
            assert forall|i: int| 0 <= i < a1@.len() implies (#[trigger] a1@[i])@ == a2@[i]@ by {
                assert(texts(a1@)[i] == texts(a2@)[i]);
            }
        }
        if a1@.len() == a2@.len() && forall|i: int|
            0 <= i < a1@.len() ==> (#[trigger] a1@[i])@ == a2@[i]@ {
            assert(texts(a1@) =~= texts(a2@));
        }
    }
}

} // verus!
