//! Managing the named sets of edits to a map: what to ask the user next, and
//! what to do once the user has answered.
//!
//! The dialogue itself is held elsewhere. Each time it has something new to
//! tell (or nothing yet), [`manage_edits`] says what comes next.

use vstd::prelude::*;
use vstd::string::StringExecFns;

verus! {

/// The name under which a map's edits go while they have not been saved.
pub open spec fn spec_no_edits() -> Seq<char> {
    "no_edits"@
}

/// The menu entry that loads another set of edits.
pub open spec fn spec_load() -> Seq<char> {
    "Load other map edits"@
}

/// The menu entry that saves edits that have no name yet.
pub open spec fn spec_save_new() -> Seq<char> {
    "Save these new map edits"@
}

/// The menu entry that saves edits under the name they have.
pub open spec fn spec_save_existing(edits_name: Seq<char>) -> Seq<char> {
    "Save "@ + edits_name
}

/// The menu: to save, for edits without a name under a new one and for
/// others under their own; and to load.
pub open spec fn spec_choices(edits_name: Seq<char>) -> Seq<Seq<char>> {
    if edits_name == spec_no_edits() {
        seq![spec_save_new(), spec_load()]
    } else {
        seq![spec_save_existing(edits_name), spec_load()]
    }
}

/// The answer is one that the dialogue can act on.
pub open spec fn spec_known_choice(edits_name: Seq<char>, answer: Seq<char>) -> bool {
    answer == spec_save_new() || answer == spec_save_existing(edits_name) || answer == spec_load()
}

/// What comes next in the dialogue.
#[derive(Debug, PartialEq, Eq)]
pub enum Step {
    /// Show the menu and ask for a choice.
    AskChoice,
    /// Ask for a name for the edits.
    AskNewName,
    /// Ask which edits to load.
    AskWhichToLoad,
    /// Save the edits under this new name, and go on under that name.
    SaveAs(String),
    /// Save the edits under the name they have.
    SaveExisting,
    /// Load the edits of this name, and build everything anew from them.
    Reload(String),
}

/// What comes next in the dialogue, as a plain value.
pub enum StepView {
    AskChoice,
    AskNewName,
    AskWhichToLoad,
    SaveAs(Seq<char>),
    SaveExisting,
    Reload(Seq<char>),
}

impl View for Step {
    type V = StepView;

    open spec fn view(&self) -> StepView {
        match self {
            Step::AskChoice => StepView::AskChoice,
            Step::AskNewName => StepView::AskNewName,
            Step::AskWhichToLoad => StepView::AskWhichToLoad,
            Step::SaveAs(name) => StepView::SaveAs(name@),
            Step::SaveExisting => StepView::SaveExisting,
            Step::Reload(name) => StepView::Reload(name@),
        }
    }
}

/// What comes next, given the user's choice from the menu and the user's
/// answer to the question that followed it, as far as they have been given:
/// without a choice, ask for one; to save new edits or to load others, ask
/// for the name and then do it; to save under the name at hand, do it.
pub open spec fn spec_manage_edits(
    edits_name: Seq<char>,
    choice: Option<Seq<char>>,
    answer: Option<Seq<char>>,
) -> StepView {
    match choice {
        None => StepView::AskChoice,
        Some(c) => if c == spec_save_new() {
            match answer {
                None => StepView::AskNewName,
                Some(name) => StepView::SaveAs(name),
            }
        } else if c == spec_save_existing(edits_name) {
            StepView::SaveExisting
        } else {
            match answer {
                None => StepView::AskWhichToLoad,
                Some(name) => StepView::Reload(name),
            }
        },
    }
}

/// A text, if there is one, as a plain value.
pub open spec fn text_view(t: Option<&str>) -> Option<Seq<char>> {
    match t {
        Some(s) => Some(s@),
        None => None,
    }
}

/// The texts as plain values.
pub open spec fn texts_view(texts: Seq<String>) -> Seq<Seq<char>> {
    Seq::new(texts.len(), |i: int| texts[i]@)
}

/// Whether two texts are the same.
pub fn same_text(a: &str, b: &str) -> (r: bool)
    ensures
        r == (a@ == b@),
{
    String::from_str(a) == String::from_str(b)
}

/// The menu entry that saves edits under the name they have.
pub fn save_existing(edits_name: &str) -> (s: String)
    ensures
        s@ == spec_save_existing(edits_name@),
{
    let mut s: String = String::from_str("Save ");
    s.append(edits_name);
    s
}

/// The title of the menu, over a description of the edits.
pub fn menu_title(description: &str) -> (s: String)
    ensures
        s@ == "Manage "@ + description@,
{
    let mut s: String = String::from_str("Manage ");
    s.append(description);
    s
}

/// The entries of the menu.
pub fn menu_choices(edits_name: &str) -> (r: Vec<String>)
    ensures
        texts_view(r@) == spec_choices(edits_name@),
{
    let mut r: Vec<String> = Vec::new();
    if same_text(edits_name, "no_edits") {
        r.push(String::from_str("Save these new map edits"));
    } else {
        r.push(save_existing(edits_name));
    }
    r.push(String::from_str("Load other map edits"));
    assert(texts_view(r@) =~= spec_choices(edits_name@));
    r
}

/// Whether the answer is one that the dialogue can act on.
pub fn known_choice(edits_name: &str, answer: &str) -> (r: bool)
    ensures
        r == spec_known_choice(edits_name@, answer@),
{
    same_text(answer, "Save these new map edits") || same_text(
        answer,
        save_existing(edits_name).as_str(),
    ) || same_text(answer, "Load other map edits")
}

/// Says what comes next in the dialogue about the edits named `edits_name`,
/// given the user's choice from the menu and the user's answer to the
/// question after it, as far as they have been given.
pub fn manage_edits(edits_name: &str, choice: Option<&str>, answer: Option<&str>) -> (r: Step)
    requires
        choice matches Some(c) ==> spec_known_choice(edits_name@, c@),
    ensures
        r@ == spec_manage_edits(edits_name@, text_view(choice), text_view(answer)),
{
    match choice {
        None => Step::AskChoice,
        Some(c) => {
            if same_text(c, "Save these new map edits") {
                match answer {
                    None => Step::AskNewName,
                    Some(name) => Step::SaveAs(String::from_str(name)),
                }
            } else if same_text(c, save_existing(edits_name).as_str()) {
                Step::SaveExisting
            } else {
                match answer {
                    None => Step::AskWhichToLoad,
                    Some(name) => Step::Reload(String::from_str(name)),
                }
            }
        },
    }
}

/// Whether the dialogue goes on: it does until it has done what the user
/// chose or the user has broken it off.
pub fn goes_on(done: bool, aborted: bool) -> (r: bool)
    ensures
        r == (!done && !aborted),
{
    if done {
        false
    } else {
        !aborted
    }
}

/// The dialogue about a map's edits, as far as it has come: the user's
/// choice from the menu, once it has been made.
#[derive(Debug)]
pub struct EditsManager {
    pub choice: Option<String>,
}

impl View for EditsManager {
    type V = Option<Seq<char>>;

    open spec fn view(&self) -> Option<Seq<char>> {
        match self.choice {
            Some(c) => Some(c@),
            None => None,
        }
    }
}

impl EditsManager {
    /// The choice made, if any, is one that the dialogue can act on.
    pub open spec fn wf(&self, edits_name: Seq<char>) -> bool {
        self@ matches Some(c) ==> spec_known_choice(edits_name, c)
    }

    /// Opens the dialogue if the action that the user chose is the one to
    /// manage map edits.
    pub fn new(action: &str) -> (r: Option<EditsManager>)
        ensures
            r is Some <==> action@ == "manage map edits"@,
            r matches Some(m) ==> m@ is None,
    {
        if same_text(action, "manage map edits") {
            return Some(EditsManager { choice: None });
        }
        None
    }

    /// Takes what the user has answered since the last time, if anything,
    /// and says what comes next. The first answer is the choice from the
    /// menu, and is kept; any later one answers the question that followed
    /// the choice.
    pub fn blocking_event(&mut self, edits_name: &str, input: Option<&str>) -> (r: Step)
        requires
            old(self).wf(edits_name@),
            old(self)@ is None ==> (input matches Some(c) ==> spec_known_choice(edits_name@, c@)),
        ensures
            final(self).wf(edits_name@),
            old(self)@ is None ==> final(self)@ == text_view(input) && r@ == spec_manage_edits(
                edits_name@,
                text_view(input),
                None,
            ),
            old(self)@ is Some ==> final(self)@ == old(self)@ && r@ == spec_manage_edits(
                edits_name@,
                old(self)@,
                text_view(input),
            ),
    {
        match &self.choice {
            Some(c) => manage_edits(edits_name, Some(c.as_str()), input),
            None => {
                match input {
                    Some(c) => {
                        self.choice = Some(String::from_str(c));
                    },
                    None => {},
                }
                manage_edits(edits_name, input, None)
            },
        }
    }
}

} // verus!
