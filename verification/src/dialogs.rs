//! The native task dialogs: how a prompt is laid out (button and radio
//! identifiers, default and closing buttons) and how the pressed button and
//! chosen radio are read back.
use vstd::prelude::*;

verus! {

/// The identifier of the first action button.
pub const FIRST_ACTION_ID: i32 = 100;

/// The identifier of the first radio choice.
pub const FIRST_CHOICE_ID: i32 = 200;

/// The common Close button.
pub const CLOSE_BUTTON_ID: i32 = 8;

/// The common Cancel button.
pub const CANCEL_BUTTON_ID: i32 = 2;

/// A button or radio choice: its identifier and text.
pub struct DialogButton {
    pub id: i32,
    pub text: String,
}

/// A task dialog to show.
pub struct DialogRequest {
    pub title: String,
    pub heading: String,
    pub description: String,
    pub buttons: Vec<DialogButton>,
    pub radios: Vec<DialogButton>,
    /// Only a Close button accompanies the actions (otherwise a Cancel button).
    pub close_only: bool,
    pub default_button: i32,
    pub default_radio: i32,
}

/// What the user did with a dialog: the button pressed and the radio chosen
/// (both 0 when the dialog could not be shown).
#[derive(Debug, Clone, Copy, PartialEq, Eq)]
pub struct DialogResponse {
    pub button: i32,
    pub radio: i32,
}

/// The buttons are numbered from `base` in order and carry the labels.
pub open spec fn numbered(buttons: Seq<DialogButton>, labels: Seq<String>, base: int) -> bool {
    &&& buttons.len() == labels.len()
    &&& forall|k: int|
        0 <= k < buttons.len() ==> (#[trigger] buttons[k]).id == base + k && buttons[k].text@
            == labels[k]@
}

/// Numbers the labels from `base`.
fn number_buttons(labels: &[String], base: i32) -> (res: Vec<DialogButton>)
    requires
        base + labels@.len() <= i32::MAX,
        base >= 0,
    ensures
        numbered(res@, labels@, base as int),
{
    let mut res: Vec<DialogButton> = Vec::new();
    let mut k: usize = 0;
    while k < labels.len()
        invariant
            k <= labels@.len(),
            base + labels@.len() <= i32::MAX,
            base >= 0,
            res@.len() == k,
            forall|j: int|
                0 <= j < k ==> (#[trigger] res@[j]).id == base + j && res@[j].text@ == labels@[j]@,
        decreases labels@.len() - k,
    {
        res.push(DialogButton { id: base + k as i32, text: labels[k].clone() });
        k = k + 1;
    }
    res
}

/// Lays out a dialog titled `DSH Desktop`: actions numbered from 100, radio
/// choices from 200, a Close button (the default) unless there is exactly one
/// action, in which case a Cancel button (the default) accompanies it; the
/// selected choice, if any, is preselected.
pub fn prompt(
    heading: &str,
    description: &str,
    actions: &[String],
    choices: &[String],
    selected: Option<usize>,
) -> (res: DialogRequest)
    requires
        FIRST_ACTION_ID + actions@.len() <= i32::MAX,
        FIRST_CHOICE_ID + choices@.len() <= i32::MAX,
        selected matches Some(i) ==> FIRST_CHOICE_ID + i <= i32::MAX,
    ensures
        res.title@ == "DSH Desktop"@,
        res.heading@ == heading@,
        res.description@ == description@,
        numbered(res.buttons@, actions@, FIRST_ACTION_ID as int),
        numbered(res.radios@, choices@, FIRST_CHOICE_ID as int),
        res.close_only == (actions@.len() != 1),
        res.default_button == if actions@.len() != 1 {
            CLOSE_BUTTON_ID
        } else {
            CANCEL_BUTTON_ID
        },
        res.default_radio == match selected {
            Some(i) => FIRST_CHOICE_ID + i,
            None => 0,
        },
{
    let close_only = actions.len() != 1;
    DialogRequest {
        title: String::from_str("DSH Desktop"),
        heading: String::from_str(heading),
        description: String::from_str(description),
        buttons: number_buttons(actions, FIRST_ACTION_ID),
        radios: number_buttons(choices, FIRST_CHOICE_ID),
        close_only,
        default_button: if close_only {
            CLOSE_BUTTON_ID
        } else {
            CANCEL_BUTTON_ID
        },
        default_radio: match selected {
            Some(i) => FIRST_CHOICE_ID + i as i32,
            None => 0,
        },
    }
}

/// A message with only a Close button.
pub fn notice(heading: &str, description: &str) -> (res: DialogRequest)
    ensures
        res.heading@ == heading@,
        res.description@ == description@,
        res.buttons@.len() == 0,
        res.radios@.len() == 0,
        res.close_only,
{
    let none: Vec<String> = Vec::new();
    prompt(heading, description, none.as_slice(), none.as_slice(), None)
}

/// An informational message: a notice.
pub fn info(title: &str, description: &str) -> (res: DialogRequest)
    ensures
        res.heading@ == title@,
        res.description@ == description@,
        res.buttons@.len() == 0,
        res.radios@.len() == 0,
        res.close_only,
{
    notice(title, description)
}

/// A question with one action button, labelled `label`, and Cancel.
pub fn action_prompt(heading: &str, description: &str, label: &str) -> (res: DialogRequest)
    ensures
        res.heading@ == heading@,
        res.description@ == description@,
        res.buttons@.len() == 1,
        res.buttons@[0].id == FIRST_ACTION_ID,
        res.buttons@[0].text@ == label@,
        res.radios@.len() == 0,
        !res.close_only,
{
    let mut labels: Vec<String> = Vec::new();
    labels.push(String::from_str(label));
    let none: Vec<String> = Vec::new();
    prompt(heading, description, labels.as_slice(), none.as_slice(), None)
}

/// The action was taken: its button, the first action, was pressed.
pub fn action(response: DialogResponse) -> (res: bool)
    ensures
        res == (response.button == FIRST_ACTION_ID),
{
    response.button == FIRST_ACTION_ID
}

/// Which of `count` action buttons was pressed, if any.
pub fn commands(response: DialogResponse, count: usize) -> (res: Option<usize>)
    requires
        response.button >= i32::MIN + FIRST_ACTION_ID,
    ensures
        match res {
            Some(i) => i < count && i == response.button - FIRST_ACTION_ID,
            None => response.button < FIRST_ACTION_ID || response.button - FIRST_ACTION_ID >= count,
        },
{
    let offset = response.button - FIRST_ACTION_ID;
    if offset < 0 {
        return None;
    }
    let index = offset as usize;
    if index < count {
        Some(index)
    } else {
        None
    }
}

/// The choice saved from a selection dialog of `count` choices: none unless
/// Save (the only action) was pressed and a listed choice is selected.
pub fn select(response: DialogResponse, count: usize) -> (res: Option<usize>)
    requires
        response.button == FIRST_ACTION_ID ==> response.radio >= i32::MIN + FIRST_CHOICE_ID,
    ensures
        match res {
            Some(i) => response.button == FIRST_ACTION_ID && i < count && i == response.radio
                - FIRST_CHOICE_ID,
            None => response.button != FIRST_ACTION_ID || response.radio < FIRST_CHOICE_ID
                || response.radio - FIRST_CHOICE_ID >= count,
        },
{
    if response.button != FIRST_ACTION_ID {
        return None;
    }
    let offset = response.radio - FIRST_CHOICE_ID;
    if offset < 0 {
        return None;
    }
    let index = offset as usize;
    if index < count {
        Some(index)
    } else {
        None
    }
}

/// A selection dialog: one Save action and the labels as radio choices, with
/// `selected` preselected.
pub fn select_prompt(heading: &str, description: &str, labels: &[String], selected: usize) -> (res: DialogRequest)
    requires
        FIRST_CHOICE_ID + labels@.len() <= i32::MAX,
        FIRST_CHOICE_ID + selected <= i32::MAX,
    ensures
        res.heading@ == heading@,
        res.description@ == description@,
        res.buttons@.len() == 1,
        res.buttons@[0].id == FIRST_ACTION_ID,
        res.buttons@[0].text@ == "保存"@,
        numbered(res.radios@, labels@, FIRST_CHOICE_ID as int),
        res.default_radio == FIRST_CHOICE_ID + selected,
{
    let mut save: Vec<String> = Vec::new();
    save.push(String::from_str("保存"));
    prompt(heading, description, save.as_slice(), labels, Some(selected))
}

/// A dialog whose action buttons carry `labels`.
pub fn commands_prompt(heading: &str, description: &str, labels: &[String]) -> (res: DialogRequest)
    requires
        FIRST_ACTION_ID + labels@.len() <= i32::MAX,
    ensures
        res.heading@ == heading@,
        res.description@ == description@,
        numbered(res.buttons@, labels@, FIRST_ACTION_ID as int),
        res.radios@.len() == 0,
{
    let none: Vec<String> = Vec::new();
    prompt(heading, description, labels, none.as_slice(), None)
}

} // verus!
