//! The main menu: who may use it, what can be chosen, in which order, and
//! under which words.

use vstd::prelude::*;

verus! {

/// What the user can ask for.
#[derive(Clone, Copy, Debug, PartialEq, Eq)]
pub enum NgSelect {
    NgDefault,
    Enable,
    Disable,
    ViewSite,
    ViewLog,
    Edit,
    Test,
    Reload,
    Exit,
}

/// The number of choices.
pub const CHOICES: usize = 9;

impl NgSelect {
    /// The choice that stands at `index` in the menu.
    pub open spec fn at(index: int) -> NgSelect {
        if index == 0 {
            NgSelect::NgDefault
        } else if index == 1 {
            NgSelect::Enable
        } else if index == 2 {
            NgSelect::Disable
        } else if index == 3 {
            NgSelect::ViewSite
        } else if index == 4 {
            NgSelect::ViewLog
        } else if index == 5 {
            NgSelect::Edit
        } else if index == 6 {
            NgSelect::Test
        } else if index == 7 {
            NgSelect::Reload
        } else {
            NgSelect::Exit
        }
    }

    /// The words under which the choice is shown.
    pub open spec fn words(self) -> Seq<char> {
        match self {
            NgSelect::NgDefault => "Create Default"@,
            NgSelect::Enable => "Enable Site"@,
            NgSelect::Disable => "Disable Site"@,
            NgSelect::ViewSite => "View Site"@,
            NgSelect::ViewLog => "View Log"@,
            NgSelect::Edit => "Edit Site"@,
            NgSelect::Test => "Test Nginx"@,
            NgSelect::Reload => "Reload Nginx"@,
            NgSelect::Exit => "Exit"@,
        }
    }

    /// The words under which the choice is shown.
    pub fn label(self) -> (s: &'static str)
        ensures
            s@ == self.words(),
    {
        match self {
            NgSelect::NgDefault => "Create Default",
            NgSelect::Enable => "Enable Site",
            NgSelect::Disable => "Disable Site",
            NgSelect::ViewSite => "View Site",
            NgSelect::ViewLog => "View Log",
            NgSelect::Edit => "Edit Site",
            NgSelect::Test => "Test Nginx",
            NgSelect::Reload => "Reload Nginx",
            NgSelect::Exit => "Exit",
        }
    }

    /// The choices in the order of the menu.
    pub fn choices() -> (all: Vec<NgSelect>)
        ensures
            all@.len() == CHOICES,
            forall|i: int| 0 <= i < CHOICES ==> #[trigger] all@[i] == NgSelect::at(i),
    {
        let mut all: Vec<NgSelect> = Vec::new();
        all.push(NgSelect::NgDefault);
        all.push(NgSelect::Enable);
        all.push(NgSelect::Disable);
        all.push(NgSelect::ViewSite);
        all.push(NgSelect::ViewLog);
        all.push(NgSelect::Edit);
        all.push(NgSelect::Test);
        all.push(NgSelect::Reload);
        all.push(NgSelect::Exit);
        all
    }
}

/// The choice that the user made by picking the entry at `selection`.
pub fn ng_select(selection: usize) -> (choice: NgSelect)
    requires
        selection < CHOICES,
    ensures
        choice == NgSelect::at(selection as int),
{
    let all = NgSelect::choices();
    all[selection]
}

/// Whether the user with the id `uid` is root.
pub fn is_root(uid: u32) -> (r: bool)
    ensures
        r == (uid == 0),
{
    uid == 0
}

} // verus!
