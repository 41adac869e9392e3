use vstd::prelude::*;
use crate::launchd::plist::{LaunchdPlist, PLIST_MAGIC, check_writable, magic_is_binary};
use crate::text::utf8_of;

verus! {

/// How a plist file is encoded, and written back.
#[derive(Clone, Copy, Debug, PartialEq, Eq, Structural)]
pub enum PlistFormat {
    Binary,
    Xml,
}

/// Where the editing of a plist stands. The plist is copied as XML into a
/// temporary file, the editor is run on the copy, and a changed copy that
/// still reads as a plist is written back in the plist's own format.
#[derive(Clone, Copy, Debug, PartialEq, Eq, Structural)]
pub enum EditState {
    Start,
    OpeningFile,
    ReadingMagic,
    ParsingPlist(PlistFormat),
    WritingTemp(PlistFormat),
    Editing(PlistFormat),
    ParsingEdit(PlistFormat),
    Saving,
    Done,
}

/// What the outside work of the last action gave.
pub enum EditEvent {
    /// Editing was asked for.
    Begin,
    /// Whether the plist file could be opened.
    FileOpened(bool),
    /// The first eight bytes of the file, if it has them.
    MagicRead(Option<Vec<u8>>),
    /// Whether the plist file reads as a plist, or why not.
    PlistParsed(Result<(), String>),
    /// Whether the XML copy was written, or why not.
    TempWritten(Result<(), String>),
    /// Whether the editor exited successfully, or why it could not be run.
    EditorExited(Result<bool, String>),
    /// Whether the edited copy differs from the plist, or why it does not
    /// read as a plist.
    EditParsed(Result<bool, String>),
    /// Whether the plist was written back, or why not.
    Saved(Result<(), String>),
}

/// The outside work to do next.
pub enum EditAction {
    OpenFile,
    ReadMagic,
    ParsePlist,
    WriteTempXml,
    RunEditor,
    ParseEdit,
    Save(PlistFormat),
    /// Editing is over, with this outcome.
    Finish(Result<(), String>),
}

/// The value of an event.
pub ghost enum EditEventView {
    Begin,
    FileOpened(bool),
    MagicRead(Option<Seq<u8>>),
    PlistParsed(Option<Seq<char>>),
    TempWritten(Option<Seq<char>>),
    EditorExited(Result<bool, Seq<char>>),
    EditParsed(Result<bool, Seq<char>>),
    Saved(Option<Seq<char>>),
}

/// The value of an action; a finished edit carries its error, if any.
pub ghost enum EditActionView {
    OpenFile,
    ReadMagic,
    ParsePlist,
    WriteTempXml,
    RunEditor,
    ParseEdit,
    Save(PlistFormat),
    Finish(Option<Seq<char>>),
}

/// The error of an outcome, if any.
pub open spec fn err_view(r: Result<(), String>) -> Option<Seq<char>> {
    match r {
        Ok(()) => None,
        Err(e) => Some(e@),
    }
}

impl View for EditEvent {
    type V = EditEventView;

    open spec fn view(&self) -> EditEventView {
        match self {
            EditEvent::Begin => EditEventView::Begin,
            EditEvent::FileOpened(b) => EditEventView::FileOpened(*b),
            EditEvent::MagicRead(m) => EditEventView::MagicRead(
                match m {
                    Some(v) => Some(v@),
                    None => None,
                },
            ),
            EditEvent::PlistParsed(r) => EditEventView::PlistParsed(err_view(*r)),
            EditEvent::TempWritten(r) => EditEventView::TempWritten(err_view(*r)),
            EditEvent::EditorExited(r) => EditEventView::EditorExited(
                match r {
                    Ok(b) => Ok(*b),
                    Err(e) => Err(e@),
                },
            ),
            EditEvent::EditParsed(r) => EditEventView::EditParsed(
                match r {
                    Ok(b) => Ok(*b),
                    Err(e) => Err(e@),
                },
            ),
            EditEvent::Saved(r) => EditEventView::Saved(err_view(*r)),
        }
    }
}

impl View for EditAction {
    type V = EditActionView;

    open spec fn view(&self) -> EditActionView {
        match self {
            EditAction::OpenFile => EditActionView::OpenFile,
            EditAction::ReadMagic => EditActionView::ReadMagic,
            EditAction::ParsePlist => EditActionView::ParsePlist,
            EditAction::WriteTempXml => EditActionView::WriteTempXml,
            EditAction::RunEditor => EditActionView::RunEditor,
            EditAction::ParseEdit => EditActionView::ParseEdit,
            EditAction::Save(f) => EditActionView::Save(*f),
            EditAction::Finish(r) => EditActionView::Finish(err_view(*r)),
        }
    }
}

/// The event answers the action that led to the state.
pub open spec fn answers(s: EditState, e: EditEventView) -> bool {
    match s {
        EditState::Start => e is Begin,
        EditState::OpeningFile => e is FileOpened,
        EditState::ReadingMagic => e is MagicRead,
        EditState::ParsingPlist(_) => e is PlistParsed,
        EditState::WritingTemp(_) => e is TempWritten,
        EditState::Editing(_) => e is EditorExited,
        EditState::ParsingEdit(_) => e is EditParsed,
        EditState::Saving => e is Saved,
        EditState::Done => false,
    }
}

/// Editing stops with an error.
pub open spec fn fail(msg: Seq<char>) -> (EditState, EditActionView) {
    (EditState::Done, EditActionView::Finish(Some(msg)))
}

/// The format that the first bytes of a plist file mark.
pub open spec fn format_of(magic: Seq<u8>) -> PlistFormat {
    if magic == utf8_of(PLIST_MAGIC@) {
        PlistFormat::Binary
    } else {
        PlistFormat::Xml
    }
}

/// The next state and action of editing a plist, read-only or not, with
/// the editor of a name.
pub open spec fn edit_step_spec(readonly: bool, editor: Seq<char>, s: EditState, e: EditEventView) -> (
    EditState,
    EditActionView,
) {
    match (s, e) {
        (EditState::Start, _) => if readonly {
            fail("plist is read-only!"@)
        } else {
            (EditState::OpeningFile, EditActionView::OpenFile)
        },
        (EditState::OpeningFile, EditEventView::FileOpened(ok)) => if ok {
            (EditState::ReadingMagic, EditActionView::ReadMagic)
        } else {
            fail("Couldn't read file"@)
        },
        (EditState::ReadingMagic, EditEventView::MagicRead(m)) => match m {
            Some(bytes) => if vstd::utf8::valid_utf8(bytes) {
                (EditState::ParsingPlist(format_of(bytes)), EditActionView::ParsePlist)
            } else {
                fail("Couldn't read magic"@)
            },
            None => fail("Couldn't read magic"@),
        },
        (EditState::ParsingPlist(f), EditEventView::PlistParsed(r)) => match r {
            None => (EditState::WritingTemp(f), EditActionView::WriteTempXml),
            Some(err) => fail(err),
        },
        (EditState::WritingTemp(f), EditEventView::TempWritten(r)) => match r {
            None => (EditState::Editing(f), EditActionView::RunEditor),
            Some(err) => fail(err),
        },
        (EditState::Editing(f), EditEventView::EditorExited(r)) => match r {
            Ok(true) => (EditState::ParsingEdit(f), EditActionView::ParseEdit),
            Ok(false) => fail(editor + " did not exit successfully"@),
            Err(err) => fail(editor + " failed: "@ + err),
        },
        (EditState::ParsingEdit(f), EditEventView::EditParsed(r)) => match r {
            Ok(true) => (EditState::Saving, EditActionView::Save(f)),
            Ok(false) => fail("No changes made"@),
            Err(err) => fail("Changes not saved: "@ + err),
        },
        (EditState::Saving, EditEventView::Saved(r)) => match r {
            None => (EditState::Done, EditActionView::Finish(None)),
            Some(err) => fail(err),
        },
        _ => (s, EditActionView::Finish(None)),
    }
}

fn fail_with(msg: String) -> (r: (EditState, EditAction))
    ensures
        (r.0, r.1@) == fail(msg@),
{
    (EditState::Done, EditAction::Finish(Err(msg)))
}

fn join2(a: &str, b: &str) -> (r: String)
    ensures
        r@ == a@ + b@,
{
    let mut s = a.to_string();
    s.append(b);
    s
}

fn join3(a: &str, b: &str, c: &str) -> (r: String)
    ensures
        r@ == a@ + b@ + c@,
{
    let mut s = a.to_string();
    s.append(b);
    s.append(c);
    s
}

/// One step of editing a plist: from the state and the event that answers
/// its action, the next state and the next action.
pub fn edit_step(plist: &LaunchdPlist, editor: &str, state: EditState, event: EditEvent) -> (r: (
    EditState,
    EditAction,
))
    requires
        answers(state, event@),
    ensures
        (r.0, r.1@) == edit_step_spec(plist.readonly, editor@, state, event@),
{
    match (state, event) {
        (EditState::Start, _) => match check_writable(plist) {
            Err(e) => fail_with(e),
            Ok(()) => (EditState::OpeningFile, EditAction::OpenFile),
        },
        (EditState::OpeningFile, EditEvent::FileOpened(ok)) => if ok {
            (EditState::ReadingMagic, EditAction::ReadMagic)
        } else {
            fail_with("Couldn't read file".to_string())
        },
        (EditState::ReadingMagic, EditEvent::MagicRead(m)) => match m {
            Some(bytes) => match magic_is_binary(bytes.as_slice()) {
                Ok(binary) => {
                    let f = if binary {
                        PlistFormat::Binary
                    } else {
                        PlistFormat::Xml
                    };
                    (EditState::ParsingPlist(f), EditAction::ParsePlist)
                },
                Err(e) => fail_with(e),
            },
            None => fail_with("Couldn't read magic".to_string()),
        },
        (EditState::ParsingPlist(f), EditEvent::PlistParsed(r)) => match r {
            Ok(()) => (EditState::WritingTemp(f), EditAction::WriteTempXml),
            Err(e) => fail_with(e),
        },
        (EditState::WritingTemp(f), EditEvent::TempWritten(r)) => match r {
            Ok(()) => (EditState::Editing(f), EditAction::RunEditor),
            Err(e) => fail_with(e),
        },
        (EditState::Editing(f), EditEvent::EditorExited(r)) => match r {
            Ok(true) => (EditState::ParsingEdit(f), EditAction::ParseEdit),
            Ok(false) => fail_with(join2(editor, " did not exit successfully")),
            Err(e) => fail_with(join3(editor, " failed: ", e.as_str())),
        },
        (EditState::ParsingEdit(f), EditEvent::EditParsed(r)) => match r {
            Ok(true) => (EditState::Saving, EditAction::Save(f)),
            Ok(false) => fail_with("No changes made".to_string()),
            Err(e) => fail_with(join2("Changes not saved: ", e.as_str())),
        },
        (EditState::Saving, EditEvent::Saved(r)) => match r {
            Ok(()) => (EditState::Done, EditAction::Finish(Ok(()))),
            Err(e) => fail_with(e),
        },
        (s, _) => (s, EditAction::Finish(Ok(()))),
    }
}

/// A read-only plist is refused before its file is opened.
pub proof fn law_read_only_refused(editor: Seq<char>, e: EditEventView)
    ensures
        edit_step_spec(true, editor, EditState::Start, e) == fail("plist is read-only!"@),
{
}

/// A plist is written back only after the editor exited successfully and
/// the edited copy differs from it and reads as a plist.
pub proof fn law_saved_only_when_changed(readonly: bool, editor: Seq<char>, s: EditState, e: EditEventView)
    requires
        answers(s, e),
        edit_step_spec(readonly, editor, s, e).1 is Save,
    ensures
        s is ParsingEdit,
        e == EditEventView::EditParsed(Ok(true)),
{
}

/// Editing a writable plist whose every step succeeds and changes it ends
/// by writing it back in the format its first bytes mark: a binary plist
/// stays binary.
pub proof fn law_written_back_in_its_format(editor: Seq<char>, magic: Seq<u8>)
    requires
        vstd::utf8::valid_utf8(magic),
    ensures
        ({
            let s1 = edit_step_spec(false, editor, EditState::Start, EditEventView::Begin).0;
            let s2 = edit_step_spec(false, editor, s1, EditEventView::FileOpened(true)).0;
            let s3 = edit_step_spec(false, editor, s2, EditEventView::MagicRead(Some(magic))).0;
            let s4 = edit_step_spec(false, editor, s3, EditEventView::PlistParsed(None)).0;
            let s5 = edit_step_spec(false, editor, s4, EditEventView::TempWritten(None)).0;
            let s6 = edit_step_spec(false, editor, s5, EditEventView::EditorExited(Ok(true))).0;
            let last = edit_step_spec(false, editor, s6, EditEventView::EditParsed(Ok(true)));
            &&& last.0 == EditState::Saving
            &&& last.1 == EditActionView::Save(format_of(magic))
        }),
{
}

} // verus!
