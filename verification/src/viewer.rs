//! The viewer's decisions: how its state follows the messages it receives,
//! which file-system changes reload the document, and the label of the
//! button that switches views.

use vstd::prelude::*;

use crate::plain::{markdown_plain_text, markdown_to_plain_text};
use crate::text::push_str;

verus! {

/// What the viewer holds: the Markdown source shown, the text of the
/// "Select Text" view, and which of the two views is shown.
pub struct Viewer {
    source: String,
    editor_text: String,
    selectable_mode: bool,
}

pub ghost struct ViewerView {
    pub source: Seq<char>,
    pub editor_text: Seq<char>,
    pub selectable_mode: bool,
}

impl View for Viewer {
    type V = ViewerView;

    closed spec fn view(&self) -> ViewerView {
        ViewerView {
            source: self.source@,
            editor_text: self.editor_text@,
            selectable_mode: self.selectable_mode,
        }
    }
}

/// What the viewer is told.
#[derive(Debug, PartialEq, Eq)]
pub enum ViewerEvent {
    /// A link in the formatted view was clicked; `scheme` is the scheme of
    /// its URL in the lower case that URL parsing gives it (`"https"`, ...).
    LinkClicked { scheme: String },
    /// The watched file was read again after a change: its new contents, or
    /// the description of the error that made reading fail.
    FileRead(Result<String, String>),
    /// The user acted on the "Select Text" editor; `is_edit` when the action
    /// would change its text.
    EditorAction { is_edit: bool },
    /// The view switch was pressed.
    ToggleSelectable,
}

/// What the viewer asks of its surroundings after an event.
#[derive(Clone, Debug, PartialEq, Eq)]
pub enum ViewerAction {
    /// Open the clicked link.
    OpenLink,
    /// Leave the clicked link closed, its scheme not being one the viewer
    /// opens, and log that it was ignored.
    IgnoreLink,
    /// Log that reading the file failed with this error; the document shown
    /// stays as it was.
    ReportReadError(String),
    /// Render the new source again and refill the editor with `editor_text`.
    ReloadViews,
    /// Refill the editor with `editor_text`.
    RefreshEditor,
    /// Carry out the editor action, which moves the cursor or selection only.
    PerformEditorAction,
    /// Nothing to do.
    Nothing,
}

impl Viewer {
    /// The editor always holds the plain text of the current source.
    #[verifier::type_invariant]
    spec fn editor_shows_source(self) -> bool {
        self.editor_text@ == markdown_plain_text(self.source@)
    }

    /// A viewer of `source`, showing the formatted view.
    pub fn new(source: String) -> (v: Viewer)
        ensures
            v@.source == source@,
            v@.editor_text == markdown_plain_text(source@),
            !v@.selectable_mode,
    {
        let editor_text = markdown_to_plain_text(source.as_str());
        Viewer { source, editor_text, selectable_mode: false }
    }

    /// The Markdown source shown.
    pub fn source(&self) -> (s: &String)
        ensures
            s@ == self@.source,
    {
        &self.source
    }

    /// The text of the "Select Text" view: always the plain text of the
    /// current source.
    pub fn editor_text(&self) -> (t: &String)
        ensures
            t@ == self@.editor_text,
            t@ == markdown_plain_text(self@.source),
    {
        proof {
            use_type_invariant(self);
        }
        &self.editor_text
    }

    /// Whether the "Select Text" view is shown.
    pub fn selectable_mode(&self) -> (b: bool)
        ensures
            b == self@.selectable_mode,
    {
        self.selectable_mode
    }

    /// The label of the view switch: the name of the view it leads to.
    pub fn header_label(&self) -> (label: &'static str)
        ensures
            self@.selectable_mode ==> label@ == "Formatted"@,
            !self@.selectable_mode ==> label@ == "Select Text"@,
    {
        if self.selectable_mode {
            "Formatted"
        } else {
            "Select Text"
        }
    }

    /// Takes in `event` and says what to do about it.
    pub fn update(&mut self, event: ViewerEvent) -> (action: ViewerAction)
        ensures
            final(self)@ == next_view(old(self)@, event),
            action == next_action(old(self)@, event),
            final(self)@.editor_text == markdown_plain_text(final(self)@.source),
    {
        proof {
            use_type_invariant(&*self);
        }
        match event {
            ViewerEvent::LinkClicked { scheme } => {
                if is_openable_scheme(scheme.as_str()) {
                    ViewerAction::OpenLink
                } else {
                    ViewerAction::IgnoreLink
                }
            },
            ViewerEvent::FileRead(Err(error)) => ViewerAction::ReportReadError(error),
            ViewerEvent::FileRead(Ok(source)) => {
                let editor_text = markdown_to_plain_text(source.as_str());
                let selectable_mode = self.selectable_mode;
                *self = Viewer { source, editor_text, selectable_mode };
                ViewerAction::ReloadViews
            },
            ViewerEvent::EditorAction { is_edit } => {
                if is_edit {
                    ViewerAction::Nothing
                } else {
                    ViewerAction::PerformEditorAction
                }
            },
            ViewerEvent::ToggleSelectable => {
                let selectable_mode = !self.selectable_mode;
                if selectable_mode {
                    let editor_text = markdown_to_plain_text(self.source.as_str());
                    let source = self.source.clone();
                    *self = Viewer { source, editor_text, selectable_mode };
                    ViewerAction::RefreshEditor
                } else {
                    let source = self.source.clone();
                    let editor_text = self.editor_text.clone();
                    *self = Viewer { source, editor_text, selectable_mode };
                    ViewerAction::Nothing
                }
            },
        }
    }
}

/// The viewer after `e`: a successful read shows the new source, the switch
/// changes view and, entering the "Select Text" view, fills the editor with
/// the plain text of the source; nothing else changes the viewer.
pub open spec fn next_view(v: ViewerView, e: ViewerEvent) -> ViewerView {
    match e {
        ViewerEvent::FileRead(Ok(s)) => ViewerView {
            source: s@,
            editor_text: markdown_plain_text(s@),
            selectable_mode: v.selectable_mode,
        },
        ViewerEvent::ToggleSelectable => ViewerView {
            editor_text: if !v.selectable_mode {
                markdown_plain_text(v.source)
            } else {
                v.editor_text
            },
            selectable_mode: !v.selectable_mode,
            ..v
        },
        _ => v,
    }
}

/// What the viewer asks for after `e`.
pub open spec fn next_action(v: ViewerView, e: ViewerEvent) -> ViewerAction {
    match e {
        ViewerEvent::LinkClicked { scheme } => if openable_scheme(scheme@) {
            ViewerAction::OpenLink
        } else {
            ViewerAction::IgnoreLink
        },
        ViewerEvent::FileRead(Err(error)) => ViewerAction::ReportReadError(error),
        ViewerEvent::FileRead(Ok(_)) => ViewerAction::ReloadViews,
        ViewerEvent::EditorAction { is_edit } => if is_edit {
            ViewerAction::Nothing
        } else {
            ViewerAction::PerformEditorAction
        },
        ViewerEvent::ToggleSelectable => if !v.selectable_mode {
            ViewerAction::RefreshEditor
        } else {
            ViewerAction::Nothing
        },
    }
}

/// Every message keeps the "Select Text" view in agreement with the source:
/// its text is the plain text of the Markdown shown.
pub proof fn lemma_editor_follows_source(v: ViewerView, e: ViewerEvent)
    requires
        v.editor_text == markdown_plain_text(v.source),
    ensures
        next_view(v, e).editor_text == markdown_plain_text(next_view(v, e).source),
{
}

/// Pressing the view switch twice returns to the view and text one started from.
pub proof fn lemma_toggle_twice(v: ViewerView)
    requires
        v.editor_text == markdown_plain_text(v.source),
    ensures
        next_view(next_view(v, ViewerEvent::ToggleSelectable), ViewerEvent::ToggleSelectable)
            == v,
{
}

/// The "Select Text" view is read-only: no editor action, edits included,
/// changes the viewer, and only actions that edit nothing are carried out.
pub proof fn lemma_editor_read_only(v: ViewerView, is_edit: bool)
    ensures
        next_view(v, ViewerEvent::EditorAction { is_edit }) == v,
        is_edit ==> next_action(v, ViewerEvent::EditorAction { is_edit })
            == ViewerAction::Nothing,
        !is_edit ==> next_action(v, ViewerEvent::EditorAction { is_edit })
            == ViewerAction::PerformEditorAction,
{
}

/// A failed read keeps the document that was shown and reports its error.
pub proof fn lemma_failed_read_keeps_document(v: ViewerView, error: String)
    ensures
        next_view(v, ViewerEvent::FileRead(Err(error))) == v,
        next_action(v, ViewerEvent::FileRead(Err(error))) == ViewerAction::ReportReadError(error),
{
}

/// Only web and mail links are opened; a link of any other scheme is
/// ignored and logged, and no link click changes the viewer.
pub proof fn lemma_only_web_and_mail_links_open(v: ViewerView, scheme: String)
    ensures
        next_view(v, ViewerEvent::LinkClicked { scheme }) == v,
        (next_action(v, ViewerEvent::LinkClicked { scheme }) == ViewerAction::OpenLink) <==> (
        scheme@ == "http"@ || scheme@ == "https"@ || scheme@ == "mailto"@),
        !openable_scheme(scheme@) ==> next_action(v, ViewerEvent::LinkClicked { scheme })
            == ViewerAction::IgnoreLink,
{
}

/// A successful reload shows the new source and its plain text and keeps
/// the view that was shown; only the view switch changes the view.
pub proof fn lemma_reload_keeps_view(v: ViewerView, source: String)
    ensures
        next_view(v, ViewerEvent::FileRead(Ok(source))).selectable_mode == v.selectable_mode,
        next_view(v, ViewerEvent::FileRead(Ok(source))).source == source@,
        next_view(v, ViewerEvent::FileRead(Ok(source))).editor_text == markdown_plain_text(
            source@,
        ),
        next_action(v, ViewerEvent::FileRead(Ok(source))) == ViewerAction::ReloadViews,
        forall|e: ViewerEvent|
            e != ViewerEvent::ToggleSelectable ==> (#[trigger] next_view(v, e)).selectable_mode
                == v.selectable_mode,
{
}

/// The view switch changes the view and keeps the source; entering the
/// "Select Text" view fills the editor with the source's plain text and asks
/// for it to be refreshed, leaving it asks for nothing.
pub proof fn lemma_toggle_switches_view(v: ViewerView)
    ensures
        next_view(v, ViewerEvent::ToggleSelectable).selectable_mode == !v.selectable_mode,
        next_view(v, ViewerEvent::ToggleSelectable).source == v.source,
        !v.selectable_mode ==> next_view(v, ViewerEvent::ToggleSelectable).editor_text
            == markdown_plain_text(v.source),
        !v.selectable_mode ==> next_action(v, ViewerEvent::ToggleSelectable)
            == ViewerAction::RefreshEditor,
        v.selectable_mode ==> next_action(v, ViewerEvent::ToggleSelectable)
            == ViewerAction::Nothing,
{
}

/// The link schemes the viewer opens: `http`, `https` and `mailto`.
pub open spec fn openable_scheme(scheme: Seq<char>) -> bool {
    scheme == "http"@ || scheme == "https"@ || scheme == "mailto"@
}

/// Whether two character sequences are equal.
fn chars_equal(a: &Vec<char>, b: &Vec<char>) -> (eq: bool)
    ensures
        eq == (a@ == b@),
{
    if a.len() != b.len() {
        return false;
    }
    let mut i: usize = 0;
    while i < a.len()
        invariant
            i <= a.len() == b.len(),
            forall|j: int| 0 <= j < i ==> a@[j] == b@[j],
        decreases a.len() - i,
    {
        if a[i] != b[i] {
            return false;
        }
        i = i + 1;
    }
    assert(a@ =~= b@);
    true
}

/// Decides `openable_scheme`.
pub fn is_openable_scheme(scheme: &str) -> (open: bool)
    ensures
        open == openable_scheme(scheme@),
{
    let mut s: Vec<char> = Vec::new();
    push_str(&mut s, scheme);
    let mut http: Vec<char> = Vec::new();
    push_str(&mut http, "http");
    let mut https: Vec<char> = Vec::new();
    push_str(&mut https, "https");
    let mut mailto: Vec<char> = Vec::new();
    push_str(&mut mailto, "mailto");
    assert(s@ =~= scheme@);
    assert(http@ =~= "http"@);
    assert(https@ =~= "https"@);
    assert(mailto@ =~= "mailto"@);
    chars_equal(&s, &http) || chars_equal(&s, &https) || chars_equal(&s, &mailto)
}

/// The kind of a change reported by the file watcher.
#[derive(Clone, Copy, Debug, PartialEq, Eq, Structural)]
pub enum FsChangeKind {
    Any,
    Access,
    Create,
    Modify,
    Remove,
    Other,
}

/// Changes that can leave new contents at a path: it was written, created
/// (a rename onto it included) or removed.
pub open spec fn is_content_change(kind: FsChangeKind) -> bool {
    kind == FsChangeKind::Modify || kind == FsChangeKind::Create || kind == FsChangeKind::Remove
}

/// Whether a reported change reloads the document: it touches the watched
/// file (`path_matches[i]` tells whether the `i`-th path of the report is
/// that file) and can have changed its contents.
pub fn is_reload_trigger(kind: FsChangeKind, path_matches: &Vec<bool>) -> (reload: bool)
    ensures
        reload == (is_content_change(kind) && exists|i: int|
            0 <= i < path_matches.len() && path_matches[i]),
{
    let mut touches_target = false;
    let mut i: usize = 0;
    while i < path_matches.len()
        invariant
            i <= path_matches.len(),
            touches_target == exists|j: int| 0 <= j < i && path_matches[j],
        decreases path_matches.len() - i,
    {
        if path_matches[i] {
            touches_target = true;
        }
        i = i + 1;
    }
    let relevant_kind = match kind {
        FsChangeKind::Modify | FsChangeKind::Create | FsChangeKind::Remove => true,
        _ => false,
    };
    touches_target && relevant_kind
}

} // verus!
