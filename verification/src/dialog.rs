//! Path injection into a file dialog through UI Automation: which requests are
//! accepted, how the filename box and the confirm button are scored, and which
//! elements are used.

use vstd::prelude::*;
use crate::text::{
    chars_equal, chars_of, contains_chars, is_substring, lowercase, lowered_chars, skip_end,
    skip_start, trim, CharClass,
};

verus! {

/// Why an injection request is refused before any UI Automation call.
#[derive(Debug, Clone, Copy, PartialEq, Eq)]
pub enum InjectTargetError {
    /// The dialog handle is 0.
    InvalidDialogHandle,
    /// The path is empty or only white space.
    EmptyPath,
}

/// An injection is attempted only for a non-zero dialog handle and a path
/// that is not blank.
pub fn check_injection_target(dialog_hwnd: isize, target_path: &str) -> (r: Result<
    (),
    InjectTargetError,
>)
    ensures
        dialog_hwnd == 0 ==> r == Err::<(), InjectTargetError>(InjectTargetError::InvalidDialogHandle),
        dialog_hwnd != 0 && trim(target_path@).len() == 0 ==> r == Err::<(), InjectTargetError>(
            InjectTargetError::EmptyPath,
        ),
        dialog_hwnd != 0 && trim(target_path@).len() > 0 ==> r is Ok,
{
    if dialog_hwnd == 0 {
        return Err(InjectTargetError::InvalidDialogHandle);
    }
    let v = chars_of(target_path);
    let a = skip_start(&v, 0, v.len(), CharClass::WhiteSpace);
    let b = skip_end(&v, a, v.len(), CharClass::WhiteSpace);
    assert(v@.subrange(0, v@.len() as int) =~= v@);
    if a == b {
        Err(InjectTargetError::EmptyPath)
    } else {
        Ok(())
    }
}

/// "文件名" (file name).
pub open spec fn word_file_name_zh() -> Seq<char> {
    seq!['\u{6587}', '\u{4ef6}', '\u{540d}']
}

/// "file name".
pub open spec fn word_file_name() -> Seq<char> {
    seq!['f', 'i', 'l', 'e', ' ', 'n', 'a', 'm', 'e']
}

/// "打开" (open).
pub open spec fn word_open_zh() -> Seq<char> {
    seq!['\u{6253}', '\u{5f00}']
}

/// "保存" (save).
pub open spec fn word_save_zh() -> Seq<char> {
    seq!['\u{4fdd}', '\u{5b58}']
}

/// "open".
pub open spec fn word_open() -> Seq<char> {
    seq!['o', 'p', 'e', 'n']
}

/// "save".
pub open spec fn word_save() -> Seq<char> {
    seq!['s', 'a', 'v', 'e']
}

/// Score of an edit control as the filename box: AutomationId 1148 (modern
/// dialog) 100, 1001 (classic dialog) 90, a name mentioning the file name 80,
/// any other edit 1.
pub open spec fn filename_edit_score_of(automation_id: Seq<char>, name: Seq<char>) -> i32 {
    let lower = lowercase(name);
    if automation_id == seq!['1', '1', '4', '8'] {
        100
    } else if automation_id == seq!['1', '0', '0', '1'] {
        90
    } else if is_substring(word_file_name_zh(), lower) || is_substring(word_file_name(), lower) {
        80
    } else {
        1
    }
}

/// Score of a button as the confirm button: AutomationId 1 (IDOK) 100, a name
/// with open/save 80, any other button `i32::MIN + 1` (never used).
pub open spec fn confirm_button_score_of(automation_id: Seq<char>, name: Seq<char>) -> i32 {
    let lower = lowercase(name);
    if automation_id == seq!['1'] {
        100
    } else if is_substring(word_open_zh(), lower) || is_substring(word_save_zh(), lower)
        || is_substring(word_open(), lower) || is_substring(word_save(), lower) {
        80
    } else {
        (i32::MIN + 1) as i32
    }
}

/// Scores an edit control as the dialog's filename box.
pub fn filename_edit_score(automation_id: &str, name: &str) -> (r: i32)
    ensures
        r == filename_edit_score_of(automation_id@, name@),
{
    let id = chars_of(automation_id);
    let modern: [char; 4] = ['1', '1', '4', '8'];
    let classic: [char; 4] = ['1', '0', '0', '1'];
    assert(modern@ =~= seq!['1', '1', '4', '8']);
    assert(classic@ =~= seq!['1', '0', '0', '1']);
    if chars_equal(id.as_slice(), &modern) {
        return 100;
    }
    if chars_equal(id.as_slice(), &classic) {
        return 90;
    }
    let lower = lowered_chars(name);
    let zh: [char; 3] = ['\u{6587}', '\u{4ef6}', '\u{540d}'];
    let en: [char; 9] = ['f', 'i', 'l', 'e', ' ', 'n', 'a', 'm', 'e'];
    assert(zh@ =~= word_file_name_zh());
    assert(en@ =~= word_file_name());
    if contains_chars(lower.as_slice(), &zh) || contains_chars(lower.as_slice(), &en) {
        return 80;
    }
    1
}

/// Scores a button as the dialog's confirm (open/save) button.
pub fn confirm_button_score(automation_id: &str, name: &str) -> (r: i32)
    ensures
        r == confirm_button_score_of(automation_id@, name@),
{
    let id = chars_of(automation_id);
    let idok: [char; 1] = ['1'];
    assert(idok@ =~= seq!['1']);
    if chars_equal(id.as_slice(), &idok) {
        return 100;
    }
    let lower = lowered_chars(name);
    let open_zh: [char; 2] = ['\u{6253}', '\u{5f00}'];
    let save_zh: [char; 2] = ['\u{4fdd}', '\u{5b58}'];
    let open_en: [char; 4] = ['o', 'p', 'e', 'n'];
    let save_en: [char; 4] = ['s', 'a', 'v', 'e'];
    assert(open_zh@ =~= word_open_zh());
    assert(save_zh@ =~= word_save_zh());
    assert(open_en@ =~= word_open());
    assert(save_en@ =~= word_save());
    if contains_chars(lower.as_slice(), &open_zh) || contains_chars(lower.as_slice(), &save_zh)
        || contains_chars(lower.as_slice(), &open_en) || contains_chars(
        lower.as_slice(),
        &save_en,
    ) {
        return 80;
    }
    i32::MIN + 1
}

/// The control type of a UI Automation element, as far as injection cares.
#[derive(Debug, Clone, Copy, PartialEq, Eq, Structural)]
pub enum ControlKind {
    Edit,
    Button,
    Other,
}

/// A descendant element of the dialog, as read through UI Automation.
#[derive(Debug, Clone)]
pub struct UiaCandidate {
    pub kind: ControlKind,
    pub automation_id: String,
    pub name: String,
}

/// How the path is confirmed after it is written into the filename box.
#[derive(Debug, Clone, Copy, PartialEq, Eq)]
pub enum ConfirmStep {
    /// Invoke the button at this index.
    InvokeButton(usize),
    /// Send Enter to the filename box.
    PressEnter,
}

/// The elements an injection uses.
#[derive(Debug, Clone, Copy, PartialEq, Eq)]
pub struct InjectionPlan {
    /// Index of the filename box.
    pub edit: usize,
    pub confirm: ConfirmStep,
}

/// The score of candidate `c` for its own kind (edits as the filename box,
/// buttons as the confirm button).
pub open spec fn candidate_score(c: UiaCandidate) -> i32 {
    match c.kind {
        ControlKind::Edit => filename_edit_score_of(c.automation_id@, c.name@),
        ControlKind::Button => confirm_button_score_of(c.automation_id@, c.name@),
        ControlKind::Other => i32::MIN,
    }
}

/// `i` is the first candidate of kind `k` with the highest score among them.
pub open spec fn is_first_best(cands: Seq<UiaCandidate>, k: ControlKind, i: int) -> bool {
    &&& 0 <= i < cands.len()
    &&& cands[i].kind == k
    &&& forall|j: int|
        0 <= j < cands.len() && cands[j].kind == k ==> candidate_score(cands[j])
            <= candidate_score(cands[i])
    &&& forall|j: int|
        0 <= j < i && cands[j].kind == k ==> candidate_score(cands[j]) < candidate_score(cands[i])
}

/// No candidate has kind `k`.
pub open spec fn none_of_kind(cands: Seq<UiaCandidate>, k: ControlKind) -> bool {
    forall|j: int| 0 <= j < cands.len() ==> cands[j].kind != k
}

/// The first best candidate of kind `k` and its score, if any.
fn best_of_kind(cands: &Vec<UiaCandidate>, k: ControlKind) -> (r: Option<(usize, i32)>)
    ensures
        match r {
            Some((i, score)) => is_first_best(cands@, k, i as int) && score == candidate_score(
                cands@[i as int],
            ),
            None => none_of_kind(cands@, k),
        },
{
    let mut best: Option<(usize, i32)> = None;
    let n = cands.len();
    for i in 0..n
        invariant
            n == cands@.len(),
            match best {
                Some((b, score)) => {
                    &&& b < i
                    &&& cands@[b as int].kind == k
                    &&& score == candidate_score(cands@[b as int])
                    &&& forall|j: int|
                        0 <= j < i && cands@[j].kind == k ==> candidate_score(cands@[j]) <= score
                    &&& forall|j: int|
                        0 <= j < b && cands@[j].kind == k ==> candidate_score(cands@[j]) < score
                },
                None => forall|j: int| 0 <= j < i ==> cands@[j].kind != k,
            },
    {
        let c = &cands[i];
        if c.kind == k {
            let score = match k {
                ControlKind::Edit => filename_edit_score(c.automation_id.as_str(), c.name.as_str()),
                ControlKind::Button => confirm_button_score(
                    c.automation_id.as_str(),
                    c.name.as_str(),
                ),
                ControlKind::Other => i32::MIN,
            };
            let better = match best {
                None => true,
                Some((_, best_score)) => score > best_score,
            };
            if better {
                best = Some((i, score));
            }
        }
    }
    best
}

/// The injection plan for a dialog's elements: the filename box is the first
/// best-scoring edit; the path is confirmed by invoking the first best-scoring
/// button when its score is positive (IDOK or an open/save name), and by
/// pressing Enter in the filename box otherwise. `None` when there is no edit.
pub fn plan_injection(candidates: &Vec<UiaCandidate>) -> (r: Option<InjectionPlan>)
    ensures
        match r {
            None => none_of_kind(candidates@, ControlKind::Edit),
            Some(plan) => {
                &&& is_first_best(candidates@, ControlKind::Edit, plan.edit as int)
                &&& match plan.confirm {
                    ConfirmStep::InvokeButton(b) => is_first_best(
                        candidates@,
                        ControlKind::Button,
                        b as int,
                    ) && candidate_score(candidates@[b as int]) > 0,
                    ConfirmStep::PressEnter => none_of_kind(candidates@, ControlKind::Button)
                        || exists|b: int|
                        is_first_best(candidates@, ControlKind::Button, b) && candidate_score(
                            candidates@[b],
                        ) <= 0,
                }
            },
        },
{
    let edit = match best_of_kind(candidates, ControlKind::Edit) {
        Some((i, _)) => i,
        None => return None,
    };
    let confirm = match best_of_kind(candidates, ControlKind::Button) {
        Some((b, score)) => {
            if score > 0 {
                ConfirmStep::InvokeButton(b)
            } else {
                assert(is_first_best(candidates@, ControlKind::Button, b as int));
                ConfirmStep::PressEnter
            }
        },
        None => ConfirmStep::PressEnter,
    };
    Some(InjectionPlan { edit, confirm })
}

} // verus!
