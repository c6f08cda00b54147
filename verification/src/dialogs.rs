//! Dialogs: what pages and add-ons ask of the user, and what comes of each answer.

use vstd::prelude::*;
use vstd::string::*;

use crate::codec;
use crate::codec::Rgb;
use crate::permissions::PermissionAnswer;
use crate::text;
use crate::unicode;

verus! {

/// How many dialogs may wait at a time, so that a page that keeps asking cannot pile them up.
pub const MAX_DIALOGS: usize = 32;

/// The three plain dialogs of a page.
#[derive(Clone, Copy, Debug, PartialEq, Eq, Structural)]
pub enum SimpleKind {
    Alert,
    Confirm,
    Prompt,
}

/// A row of a list to choose from. A heading has no number.
#[derive(Debug)]
pub struct SelectOpt {
    pub id: Option<usize>,
    pub label: String,
    pub disabled: bool,
}

/// `SelectOpt` as mathematical values.
#[verifier::ext_equal]
pub struct OptView {
    pub id: Option<usize>,
    pub label: Seq<char>,
    pub disabled: bool,
}

impl View for SelectOpt {
    type V = OptView;

    open spec fn view(&self) -> OptView {
        OptView { id: self.id, label: self.label@, disabled: self.disabled }
    }
}

/// A question that waits for the user. The handle is the engine's number for the request that
/// the answer goes to.
#[derive(Debug)]
pub enum Dialog {
    Simple { kind: SimpleKind, message: String, input: String, handle: u64 },
    Auth { message: String, user: String, pass: String, handle: u64 },
    Select { options: Vec<SelectOpt>, handle: u64 },
    Color { hex: String, handle: u64 },
    File { multiple: bool, patterns: Vec<String>, handle: u64 },
    Permission { message: String, origin: String, feature: String, handle: u64 },
    AddonConsent {
        addon_id: String,
        name: String,
        version: String,
        sites: Vec<String>,
        perms: Vec<String>,
    },
    ContextMenu { handle: u64 },
}

/// What the user has done in a dialog.
#[derive(Clone, Copy, Debug, PartialEq, Eq, Structural)]
pub enum DialogEvent {
    Nothing,
    Accept,
    Cancel,
    /// The row of this place was clicked.
    Chosen(usize),
    Answer(PermissionAnswer),
    Enable,
    Back,
    Forward,
    Reload,
    /// A click went past the menu.
    Elsewhere,
    /// The file picker is open.
    FileOpen,
    /// Files have been picked.
    FilePicked,
    /// The file picker was closed with nothing picked.
    FileClosed,
}

/// What is to be done about a dialog's answer.
#[derive(Debug)]
pub enum DialogDeed {
    Nothing,
    Confirm(u64),
    /// Set the text, then confirm.
    ConfirmWith(u64, String),
    Dismiss(u64),
    /// Let go of the request without an answer.
    Cancel(u64),
    Authenticate(u64, String, String),
    /// Choose the row of this number.
    Select(u64, usize),
    /// Set the colour, if there is one, and hand it on.
    Pick(u64, Option<Rgb>),
    /// Hand on the files picked.
    Submit(u64),
    /// Answer a request for a permission.
    Permission(u64, PermissionAnswer),
    /// Switch an add-on on.
    EnableAddon(String),
    GoBack,
    GoForward,
    Reload,
}

/// `DialogDeed` as mathematical values.
#[verifier::ext_equal]
pub enum DeedView {
    Nothing,
    Confirm(u64),
    ConfirmWith(u64, Seq<char>),
    Dismiss(u64),
    Cancel(u64),
    Authenticate(u64, Seq<char>, Seq<char>),
    Select(u64, usize),
    Pick(u64, Option<Rgb>),
    Submit(u64),
    Permission(u64, PermissionAnswer),
    EnableAddon(Seq<char>),
    GoBack,
    GoForward,
    Reload,
}

impl View for DialogDeed {
    type V = DeedView;

    open spec fn view(&self) -> DeedView {
        match self {
            DialogDeed::Nothing => DeedView::Nothing,
            DialogDeed::Confirm(h) => DeedView::Confirm(*h),
            DialogDeed::ConfirmWith(h, s) => DeedView::ConfirmWith(*h, s@),
            DialogDeed::Dismiss(h) => DeedView::Dismiss(*h),
            DialogDeed::Cancel(h) => DeedView::Cancel(*h),
            DialogDeed::Authenticate(h, u, p) => DeedView::Authenticate(*h, u@, p@),
            DialogDeed::Select(h, i) => DeedView::Select(*h, *i),
            DialogDeed::Pick(h, c) => DeedView::Pick(*h, *c),
            DialogDeed::Submit(h) => DeedView::Submit(*h),
            DialogDeed::Permission(h, a) => DeedView::Permission(*h, *a),
            DialogDeed::EnableAddon(s) => DeedView::EnableAddon(s@),
            DialogDeed::GoBack => DeedView::GoBack,
            DialogDeed::GoForward => DeedView::GoForward,
            DialogDeed::Reload => DeedView::Reload,
        }
    }
}

/// The deeds of a list.
pub open spec fn deed_views(v: Seq<DialogDeed>) -> Seq<DeedView> {
    Seq::new(v.len(), |i: int| v[i]@)
}

// ---------------------------------------------------------------------------
// One dialog
// ---------------------------------------------------------------------------

/// What comes of an event in a dialog, and whether the dialog stays open. An event that the
/// dialog does not offer does nothing: an alert has no way to be cancelled, a heading or a
/// disabled row cannot be chosen, and a page without history has no way back.
pub open spec fn outcome(d: Dialog, e: DialogEvent, back: bool, forward: bool) -> (DeedView, bool) {
    let stay = (DeedView::Nothing, true);
    match d {
        Dialog::Simple { kind, message, input, handle } => match e {
            DialogEvent::Accept => (
                if kind == SimpleKind::Prompt {
                    DeedView::ConfirmWith(handle, input@)
                } else {
                    DeedView::Confirm(handle)
                },
                false,
            ),
            DialogEvent::Cancel => if kind == SimpleKind::Alert {
                stay
            } else {
                (DeedView::Dismiss(handle), false)
            },
            _ => stay,
        },
        Dialog::Auth { message, user, pass, handle } => match e {
            DialogEvent::Accept => (DeedView::Authenticate(handle, user@, pass@), false),
            DialogEvent::Cancel => (DeedView::Cancel(handle), false),
            _ => stay,
        },
        Dialog::Select { options, handle } => match e {
            DialogEvent::Chosen(i) => if i < options@.len() && options@[i as int].id is Some
                && !options@[i as int].disabled {
                (DeedView::Select(handle, options@[i as int].id->0), false)
            } else {
                stay
            },
            DialogEvent::Cancel => (DeedView::Cancel(handle), false),
            _ => stay,
        },
        Dialog::Color { hex, handle } => match e {
            DialogEvent::Accept => (DeedView::Pick(handle, codec::read_colour(hex@)), false),
            DialogEvent::Cancel => (DeedView::Cancel(handle), false),
            _ => stay,
        },
        Dialog::File { multiple, patterns, handle } => match e {
            DialogEvent::FilePicked => (DeedView::Submit(handle), false),
            DialogEvent::FileClosed => (DeedView::Dismiss(handle), false),
            _ => stay,
        },
        Dialog::Permission { message, origin, feature, handle } => match e {
            DialogEvent::Answer(a) => (DeedView::Permission(handle, a), false),
            _ => stay,
        },
        Dialog::AddonConsent { addon_id, name, version, sites, perms } => match e {
            DialogEvent::Enable => (DeedView::EnableAddon(addon_id@), false),
            DialogEvent::Cancel => (DeedView::Nothing, false),
            _ => stay,
        },
        Dialog::ContextMenu { handle } => match e {
            DialogEvent::Back => if back {
                (DeedView::GoBack, false)
            } else {
                stay
            },
            DialogEvent::Forward => if forward {
                (DeedView::GoForward, false)
            } else {
                stay
            },
            DialogEvent::Reload => (DeedView::Reload, false),
            DialogEvent::Elsewhere => (DeedView::Nothing, false),
            _ => stay,
        },
    }
}

/// The title of a dialog; the file picker and the menu have none.
pub open spec fn title_of(d: Dialog) -> Seq<char> {
    match d {
        Dialog::Simple { kind, .. } => match kind {
            SimpleKind::Alert => "Alert"@,
            SimpleKind::Confirm => "Confirm"@,
            SimpleKind::Prompt => "Prompt"@,
        },
        Dialog::Auth { .. } => "Authentication required"@,
        Dialog::Select { .. } => "Select"@,
        Dialog::Color { .. } => "Choose a color"@,
        Dialog::Permission { .. } => "Permission request"@,
        Dialog::AddonConsent { .. } => "Enable userscript?"@,
        _ => ""@,
    }
}

/// A page's own dialogs, in contrast to the menu that the user called up.
pub open spec fn is_menu(d: Dialog) -> bool {
    d is ContextMenu
}

impl Dialog {
    /// The title of this dialog.
    pub fn title(&self) -> (r: &'static str)
        ensures
            r@ == title_of(*self),
    {
        match self {
            Dialog::Simple { kind, .. } => match kind {
                SimpleKind::Alert => "Alert",
                SimpleKind::Confirm => "Confirm",
                SimpleKind::Prompt => "Prompt",
            },
            Dialog::Auth { .. } => "Authentication required",
            Dialog::Select { .. } => "Select",
            Dialog::Color { .. } => "Choose a color",
            Dialog::Permission { .. } => "Permission request",
            Dialog::AddonConsent { .. } => "Enable userscript?",
            _ => "",
        }
    }

    fn menu(&self) -> (r: bool)
        ensures
            r == is_menu(*self),
    {
        match self {
            Dialog::ContextMenu { .. } => true,
            _ => false,
        }
    }

    /// Decides what comes of an event in this dialog, and whether it stays open. `back` and
    /// `forward` tell whether the active page has somewhere to go.
    pub fn draw_one_dialog(&self, e: DialogEvent, back: bool, forward: bool) -> (r: (
        DialogDeed,
        bool,
    ))
        ensures
            (r.0@, r.1) == outcome(*self, e, back, forward),
    {
        match self {
            Dialog::Simple { kind, message, input, handle } => match e {
                DialogEvent::Accept => match kind {
                    SimpleKind::Prompt => (DialogDeed::ConfirmWith(*handle, input.clone()), false),
                    _ => (DialogDeed::Confirm(*handle), false),
                },
                DialogEvent::Cancel => match kind {
                    SimpleKind::Alert => (DialogDeed::Nothing, true),
                    _ => (DialogDeed::Dismiss(*handle), false),
                },
                _ => (DialogDeed::Nothing, true),
            },
            Dialog::Auth { message, user, pass, handle } => match e {
                DialogEvent::Accept => (
                    DialogDeed::Authenticate(*handle, user.clone(), pass.clone()),
                    false,
                ),
                DialogEvent::Cancel => (DialogDeed::Cancel(*handle), false),
                _ => (DialogDeed::Nothing, true),
            },
            Dialog::Select { options, handle } => match e {
                DialogEvent::Chosen(i) => {
                    if i < options.len() && !options[i].disabled {
                        match options[i].id {
                            Some(id) => (DialogDeed::Select(*handle, id), false),
                            None => (DialogDeed::Nothing, true),
                        }
                    } else {
                        (DialogDeed::Nothing, true)
                    }
                },
                DialogEvent::Cancel => (DialogDeed::Cancel(*handle), false),
                _ => (DialogDeed::Nothing, true),
            },
            Dialog::Color { hex, handle } => match e {
                DialogEvent::Accept => (
                    DialogDeed::Pick(*handle, codec::parse_hex_color(hex.as_str())),
                    false,
                ),
                DialogEvent::Cancel => (DialogDeed::Cancel(*handle), false),
                _ => (DialogDeed::Nothing, true),
            },
            Dialog::File { multiple, patterns, handle } => match e {
                DialogEvent::FilePicked => (DialogDeed::Submit(*handle), false),
                DialogEvent::FileClosed => (DialogDeed::Dismiss(*handle), false),
                _ => (DialogDeed::Nothing, true),
            },
            Dialog::Permission { message, origin, feature, handle } => match e {
                DialogEvent::Answer(a) => (DialogDeed::Permission(*handle, a), false),
                _ => (DialogDeed::Nothing, true),
            },
            Dialog::AddonConsent { addon_id, name, version, sites, perms } => match e {
                DialogEvent::Enable => (DialogDeed::EnableAddon(addon_id.clone()), false),
                DialogEvent::Cancel => (DialogDeed::Nothing, false),
                _ => (DialogDeed::Nothing, true),
            },
            Dialog::ContextMenu { handle } => match e {
                DialogEvent::Back => {
                    if back {
                        (DialogDeed::GoBack, false)
                    } else {
                        (DialogDeed::Nothing, true)
                    }
                },
                DialogEvent::Forward => {
                    if forward {
                        (DialogDeed::GoForward, false)
                    } else {
                        (DialogDeed::Nothing, true)
                    }
                },
                DialogEvent::Reload => (DialogDeed::Reload, false),
                DialogEvent::Elsewhere => (DialogDeed::Nothing, false),
                _ => (DialogDeed::Nothing, true),
            },
        }
    }
}

/// An answer closes its dialog: a dialog that stays open has told nobody anything.
pub proof fn open_dialogs_have_not_answered(d: Dialog, e: DialogEvent, back: bool, forward: bool)
    ensures
        outcome(d, e, back, forward).1 ==> outcome(d, e, back, forward).0 == DeedView::Nothing,
{
}

/// An add-on is switched on only from its own dialog, and only by the button that says so.
pub proof fn consent_takes_a_click(d: Dialog, e: DialogEvent, back: bool, forward: bool)
    ensures
        outcome(d, e, back, forward).0 is EnableAddon ==> e == DialogEvent::Enable
            && d is AddonConsent,
{
}

// ---------------------------------------------------------------------------
// The queue
// ---------------------------------------------------------------------------

/// The event for the dialog at this place; nothing happened in one past the end.
pub open spec fn event_at(events: Seq<DialogEvent>, i: int) -> DialogEvent {
    if 0 <= i < events.len() {
        events[i]
    } else {
        DialogEvent::Nothing
    }
}

/// The first `n` dialogs, without those that their events have closed.
pub open spec fn still_open(
    items: Seq<Dialog>,
    events: Seq<DialogEvent>,
    back: bool,
    forward: bool,
    n: nat,
) -> Seq<Dialog>
    decreases n,
{
    if n == 0 {
        Seq::empty()
    } else {
        let rest = still_open(items, events, back, forward, (n - 1) as nat);
        if outcome(items[n - 1], event_at(events, n - 1), back, forward).1 {
            rest.push(items[n - 1])
        } else {
            rest
        }
    }
}

/// The menus among the dialogs.
pub open spec fn menus(items: Seq<Dialog>) -> Seq<Dialog>
    decreases items.len(),
{
    if items.len() == 0 {
        Seq::empty()
    } else if is_menu(items.last()) {
        menus(items.drop_last()).push(items.last())
    } else {
        menus(items.drop_last())
    }
}

/// The dialogs with one more, unless there are too many already.
pub open spec fn pushed(items: Seq<Dialog>, d: Dialog) -> Seq<Dialog> {
    if items.len() >= MAX_DIALOGS {
        items
    } else {
        items.push(d)
    }
}

/// What waits for the user, in the order in which it was asked.
pub struct DialogQueue {
    pub items: Vec<Dialog>,
}

impl DialogQueue {
    /// Nothing waits.
    pub fn new() -> (r: DialogQueue)
        ensures
            r.items@.len() == 0,
    {
        DialogQueue { items: Vec::new() }
    }

    /// Adds a dialog, unless there are too many. Tells whether it was added.
    pub fn push_dialog(&mut self, d: Dialog) -> (r: bool)
        ensures
            final(self).items@ == pushed(old(self).items@, d),
            r == (old(self).items@.len() < MAX_DIALOGS),
    {
        if self.items.len() >= MAX_DIALOGS {
            return false;
        }
        self.items.push(d);
        true
    }

    /// The page has taken back what it asked: only the menus stay.
    pub fn hide_embedder_control(&mut self)
        ensures
            final(self).items@ == menus(old(self).items@),
    {
        let ghost all = self.items@;
        let mut i: usize = 0;
        let ghost mut n: int = 0;
        assert(all.skip(0) =~= all);
        assert(self.items@.take(0) =~= menus(all.take(0)));
        while i < self.items.len()
            invariant
                i <= self.items@.len(),
                0 <= n <= all.len(),
                self.items@.take(i as int) == menus(all.take(n)),
                self.items@.skip(i as int) == all.skip(n),
            decreases self.items@.len() - i,
        {
            let ghost before = self.items@;
            assert(before.skip(i as int)[0] == before[i as int]);
            assert(before.skip(i as int).len() == all.skip(n).len());
            assert(all.skip(n)[0] == all[n]);
            assert(all.take(n + 1).drop_last() =~= all.take(n));
            if self.items[i].menu() {
                assert(before.take(i + 1) =~= before.take(i as int).push(all[n]));
                assert(before.skip(i + 1) =~= before.skip(i as int).skip(1));
                i = i + 1;
            } else {
                self.items.remove(i);
                assert(self.items@.take(i as int) =~= before.take(i as int));
                assert(self.items@.skip(i as int) =~= before.skip(i as int).skip(1));
            }
            assert(all.skip(n + 1) =~= all.skip(n).skip(1));
            proof {
                n = n + 1;
            }
        }
        assert(all.skip(n).len() == 0);
        assert(all.take(n) =~= all);
        assert(self.items@.take(i as int) =~= self.items@);
    }

    /// Takes what the user has done in each dialog this time round. The dialogs that this closes
    /// leave; what is to be done is handed back, in order.
    pub fn draw_dialogs(&mut self, events: &Vec<DialogEvent>, back: bool, forward: bool) -> (r: Vec<
        DialogDeed,
    >)
        ensures
            final(self).items@ == still_open(
                old(self).items@,
                events@,
                back,
                forward,
                old(self).items@.len(),
            ),
            deed_views(r@) == Seq::new(
                old(self).items@.len(),
                |i: int| outcome(old(self).items@[i], event_at(events@, i), back, forward).0,
            ),
    {
        let ghost all = self.items@;
        let ghost deeds = Seq::new(
            all.len(),
            |i: int| outcome(all[i], event_at(events@, i), back, forward).0,
        );
        let mut out: Vec<DialogDeed> = Vec::new();
        let mut i: usize = 0;
        let mut n: usize = 0;
        assert(all.skip(0) =~= all);
        assert(self.items@.take(0) =~= still_open(all, events@, back, forward, 0));
        assert(deed_views(out@) =~= deeds.take(0));
        assert(self.items.len() == all.len());
        while i < self.items.len()
            invariant
                i <= self.items@.len(),
                i <= n <= all.len(),
                all.len() <= usize::MAX,
                deeds == Seq::new(
                    all.len(),
                    |i: int| outcome(all[i], event_at(events@, i), back, forward).0,
                ),
                self.items@.take(i as int) == still_open(all, events@, back, forward, n as nat),
                self.items@.skip(i as int) == all.skip(n as int),
                deed_views(out@) == deeds.take(n as int),
            decreases self.items@.len() - i,
        {
            let ghost before = self.items@;
            let ghost told = deed_views(out@);
            assert(before.skip(i as int)[0] == before[i as int]);
            assert(before.skip(i as int).len() == all.skip(n as int).len());
            assert(all.skip(n as int)[0] == all[n as int]);
            let e: DialogEvent = if n < events.len() {
                events[n]
            } else {
                DialogEvent::Nothing
            };
            let step: (DialogDeed, bool) = self.items[i].draw_one_dialog(e, back, forward);
            out.push(step.0);
            assert(deed_views(out@) =~= told.push(step.0@));
            assert(deeds.take(n + 1) =~= deeds.take(n as int).push(deeds[n as int]));
            if step.1 {
                assert(before.take(i + 1) =~= before.take(i as int).push(all[n as int]));
                assert(before.skip(i + 1) =~= before.skip(i as int).skip(1));
                i = i + 1;
            } else {
                self.items.remove(i);
                assert(self.items@.take(i as int) =~= before.take(i as int));
                assert(self.items@.skip(i as int) =~= before.skip(i as int).skip(1));
            }
            assert(all.skip(n + 1) =~= all.skip(n as int).skip(1));
            n = n + 1;
        }
        assert(all.skip(n as int).len() == 0);
        assert(n == all.len());
        assert(deeds.take(n as int) =~= deeds);
        assert(self.items@.take(i as int) =~= self.items@);
        out
    }
}

proof fn lemma_still_open_len(
    items: Seq<Dialog>,
    events: Seq<DialogEvent>,
    back: bool,
    forward: bool,
    n: nat,
)
    ensures
        still_open(items, events, back, forward, n).len() <= n,
    decreases n,
{
    if n > 0 {
        lemma_still_open_len(items, events, back, forward, (n - 1) as nat);
    }
}

proof fn lemma_menus_len(items: Seq<Dialog>)
    ensures
        menus(items).len() <= items.len(),
    decreases items.len(),
{
    if items.len() > 0 {
        lemma_menus_len(items.drop_last());
    }
}

/// However much a page asks, the dialogs that wait stay within the limit: nothing that happens to
/// the queue takes it past.
pub proof fn waiting_dialogs_are_bounded(
    items: Seq<Dialog>,
    d: Dialog,
    events: Seq<DialogEvent>,
    back: bool,
    forward: bool,
)
    requires
        items.len() <= MAX_DIALOGS,
    ensures
        pushed(items, d).len() <= MAX_DIALOGS,
        menus(items).len() <= MAX_DIALOGS,
        still_open(items, events, back, forward, items.len()).len() <= MAX_DIALOGS,
{
    lemma_still_open_len(items, events, back, forward, items.len());
    lemma_menus_len(items);
}

// ---------------------------------------------------------------------------
// What pages ask for
// ---------------------------------------------------------------------------

/// An entry of a page's list: a row, or a group of rows under a heading.
#[derive(Debug)]
pub enum SelectItem {
    Row(SelectOpt),
    Group(String, Vec<SelectOpt>),
}

/// The rows of a list.
pub open spec fn opt_views(v: Seq<SelectOpt>) -> Seq<OptView> {
    Seq::new(v.len(), |i: int| v[i]@)
}

/// The rows that an entry is shown as: a group has its heading first, which cannot be chosen.
pub open spec fn item_rows(item: SelectItem) -> Seq<OptView> {
    match item {
        SelectItem::Row(o) => seq![o@],
        SelectItem::Group(label, rows) => seq![
            OptView { id: None, label: label@, disabled: true },
        ] + opt_views(rows@),
    }
}

/// The rows that a list is shown as.
pub open spec fn flattened(items: Seq<SelectItem>) -> Seq<OptView>
    decreases items.len(),
{
    if items.len() == 0 {
        Seq::empty()
    } else {
        flattened(items.drop_last()) + item_rows(items.last())
    }
}

fn copy_row(o: &SelectOpt) -> (r: SelectOpt)
    ensures
        r@ == o@,
{
    SelectOpt { id: o.id, label: o.label.clone(), disabled: o.disabled }
}

fn add_item(out: &mut Vec<SelectOpt>, item: &SelectItem)
    ensures
        opt_views(final(out)@) == opt_views(old(out)@) + item_rows(*item),
{
    let ghost start = opt_views(out@);
    match item {
        SelectItem::Row(o) => {
            out.push(copy_row(o));
            assert(opt_views(out@) =~= start + seq![o@]);
        },
        SelectItem::Group(label, rows) => {
            out.push(SelectOpt { id: None, label: label.clone(), disabled: true });
            let ghost head = opt_views(out@);
            assert(head =~= start + seq![OptView { id: None, label: label@, disabled: true }]);
            let ghost all = opt_views(rows@);
            let mut i: usize = 0;
            assert(opt_views(out@) =~= head + all.take(0));
            while i < rows.len()
                invariant
                    i <= rows@.len(),
                    all == opt_views(rows@),
                    opt_views(out@) == head + all.take(i as int),
                decreases rows@.len() - i,
            {
                let ghost before = opt_views(out@);
                out.push(copy_row(&rows[i]));
                assert(opt_views(out@) =~= before.push(all[i as int]));
                assert(head + all.take(i + 1) =~= before.push(all[i as int]));
                i = i + 1;
            }
            assert(all.take(rows@.len() as int) =~= all);
            assert(opt_views(out@) =~= start + item_rows(*item));
        },
    }
}

/// The rows that a list is shown as.
pub fn flatten_options(items: &Vec<SelectItem>) -> (r: Vec<SelectOpt>)
    ensures
        opt_views(r@) == flattened(items@),
{
    let mut out: Vec<SelectOpt> = Vec::new();
    let mut i: usize = 0;
    assert(opt_views(out@) =~= flattened(items@.take(0)));
    while i < items.len()
        invariant
            i <= items@.len(),
            opt_views(out@) == flattened(items@.take(i as int)),
        decreases items@.len() - i,
    {
        assert(items@.take(i + 1).drop_last() =~= items@.take(i as int));
        add_item(&mut out, &items[i]);
        i = i + 1;
    }
    assert(items@.take(items@.len() as int) =~= items@);
    out
}

/// What a page asks the user.
#[derive(Debug)]
pub enum Control {
    /// A plain dialog: its kind, its message and the text that a prompt starts with.
    Simple(SimpleKind, String, String),
    Select(Vec<SelectItem>),
    /// A colour, and the one that is set now.
    Color(Option<Rgb>),
    /// Files: whether several may be picked, and the endings of their names.
    File(bool, Vec<String>),
    /// Something that no dialog is shown for.
    Other,
}

/// What a dialog for a page's question holds. A prompt starts with the page's text, the others
/// with none; a colour that is not set is black.
pub open spec fn shown_as(c: Control, handle: u64, d: Option<Dialog>) -> bool {
    match c {
        Control::Simple(kind, message, value) => d matches Some(
            Dialog::Simple { kind: k, message: m, input: i, handle: h },
        ) && k == kind && m@ == message@ && h == handle && i@ == if kind == SimpleKind::Prompt {
            value@
        } else {
            Seq::empty()
        },
        Control::Select(items) => d matches Some(Dialog::Select { options, handle: h })
            && opt_views(options@) == flattened(items@) && h == handle,
        Control::Color(now) => d matches Some(Dialog::Color { hex, handle: h }) && h == handle
            && hex@ == codec::colour_text(
            match now {
                Some(c) => c,
                None => Rgb { red: 0, green: 0, blue: 0 },
            },
        ),
        Control::File(multiple, patterns) => d matches Some(
            Dialog::File { multiple: m, patterns: p, handle: h },
        ) && m == multiple && p@ == patterns@ && h == handle,
        Control::Other => d is None,
    }
}

/// The dialog for what a page asks.
pub fn show_embedder_control(c: Control, handle: u64) -> (r: Option<Dialog>)
    ensures
        shown_as(c, handle, r),
{
    match c {
        Control::Simple(kind, message, value) => {
            let input: String = match kind {
                SimpleKind::Prompt => value,
                _ => {
                    let s: String = String::new();
                    assert(s@ =~= Seq::<char>::empty());
                    s
                },
            };
            Some(Dialog::Simple { kind, message, input, handle })
        },
        Control::Select(items) => Some(
            Dialog::Select { options: flatten_options(&items), handle },
        ),
        Control::Color(now) => {
            let c: Rgb = match now {
                Some(c) => c,
                None => Rgb { red: 0, green: 0, blue: 0 },
            };
            Some(Dialog::Color { hex: codec::color_hex(c), handle })
        },
        Control::File(multiple, patterns) => Some(Dialog::File { multiple, patterns, handle }),
        Control::Other => None,
    }
}

/// Is a file offered, by the ending of its name? Where there are no patterns every file is; else
/// the ending, in small letters, is one of them.
pub open spec fn offers_file(patterns: Seq<Seq<char>>, ending: Option<Seq<char>>) -> bool {
    patterns.len() == 0 || (ending matches Some(e) && patterns.contains(unicode::lowercase(e)))
}

/// Is a file offered, by the ending of its name?
pub fn offers(patterns: &Vec<String>, ending: Option<&str>) -> (r: bool)
    ensures
        r == offers_file(
            text::texts(patterns@),
            match ending {
                Some(e) => Some(e@),
                None => None,
            },
        ),
{
    assert(text::texts(patterns@).len() == patterns@.len());
    if patterns.len() == 0 {
        return true;
    }
    match ending {
        Some(e) => text::is_one_of(unicode::to_lowercase(e).as_str(), patterns),
        None => false,
    }
}

/// The message that asks for a user name and a password.
pub open spec fn login_message(url: Seq<char>, proxy: bool) -> Seq<char> {
    if proxy {
        "The proxy at "@ + url + " requires a username and password."@
    } else {
        url + " requires a username and password."@
    }
}

/// The dialog that asks for a user name and a password; both start empty.
pub fn request_authentication(url: &str, proxy: bool, handle: u64) -> (r: Dialog)
    ensures
        r matches Dialog::Auth { message, user, pass, handle: h } && message@ == login_message(
            url@,
            proxy,
        ) && user@.len() == 0 && pass@.len() == 0 && h == handle,
{
    let mut message: String = if proxy {
        let mut m: String = "The proxy at ".to_owned();
        m.append(url);
        m
    } else {
        url.to_owned()
    };
    message.append(" requires a username and password.");
    Dialog::Auth { message, user: String::new(), pass: String::new(), handle }
}

// ---------------------------------------------------------------------------
// Laws
// ---------------------------------------------------------------------------

/// The buttons of a dialog do what they say, to the request that it was shown for: a plain dialog is
/// confirmed or dismissed, and a prompt hands on what was typed.
pub proof fn plain_dialogs_answer(
    kind: SimpleKind,
    message: String,
    input: String,
    h: u64,
    back: bool,
    forward: bool,
)
    ensures
        kind != SimpleKind::Prompt ==> outcome(
            Dialog::Simple { kind, message, input, handle: h },
            DialogEvent::Accept,
            back,
            forward,
        ) == (DeedView::Confirm(h), false),
        outcome(
            Dialog::Simple { kind: SimpleKind::Prompt, message, input, handle: h },
            DialogEvent::Accept,
            back,
            forward,
        ) == (DeedView::ConfirmWith(h, input@), false),
        kind != SimpleKind::Alert ==> outcome(
            Dialog::Simple { kind, message, input, handle: h },
            DialogEvent::Cancel,
            back,
            forward,
        ) == (DeedView::Dismiss(h), false),
{
}

/// A login dialog hands on the user name and the password as they were typed, each in its place, and
/// nothing when it is cancelled.
pub proof fn login_dialogs_answer(
    message: String,
    user: String,
    pass: String,
    h: u64,
    back: bool,
    forward: bool,
)
    ensures
        outcome(Dialog::Auth { message, user, pass, handle: h }, DialogEvent::Accept, back, forward)
            == (DeedView::Authenticate(h, user@, pass@), false),
        outcome(Dialog::Auth { message, user, pass, handle: h }, DialogEvent::Cancel, back, forward)
            == (DeedView::Cancel(h), false),
{
}

/// A list hands on the number of the row that was clicked, and of no other; a heading or a disabled
/// row cannot be chosen.
pub proof fn lists_hand_on_the_chosen_row(
    options: Vec<SelectOpt>,
    h: u64,
    i: usize,
    back: bool,
    forward: bool,
)
    requires
        i < options@.len(),
    ensures
        options@[i as int].disabled || options@[i as int].id is None ==> outcome(
            Dialog::Select { options, handle: h },
            DialogEvent::Chosen(i),
            back,
            forward,
        ) == (DeedView::Nothing, true),
        !options@[i as int].disabled ==> (options@[i as int].id matches Some(n) ==> outcome(
            Dialog::Select { options, handle: h },
            DialogEvent::Chosen(i),
            back,
            forward,
        ) == (DeedView::Select(h, n), false)),
{
}

/// A request for a permission gets the answer that was given; a closed file picker hands on what was
/// picked or nothing; consent switches on the add-on that it was asked for, and a refusal none.
pub proof fn answers_reach_what_asked(
    message: String,
    origin: String,
    feature: String,
    h: u64,
    a: PermissionAnswer,
    multiple: bool,
    patterns: Vec<String>,
    addon_id: String,
    sites: Vec<String>,
    perms: Vec<String>,
    back: bool,
    forward: bool,
)
    ensures
        outcome(
            Dialog::Permission { message, origin, feature, handle: h },
            DialogEvent::Answer(a),
            back,
            forward,
        ) == (DeedView::Permission(h, a), false),
        outcome(
            Dialog::File { multiple, patterns, handle: h },
            DialogEvent::FilePicked,
            back,
            forward,
        ) == (DeedView::Submit(h), false),
        outcome(
            Dialog::File { multiple, patterns, handle: h },
            DialogEvent::FileClosed,
            back,
            forward,
        ) == (DeedView::Dismiss(h), false),
        outcome(
            Dialog::AddonConsent { addon_id, name: message, version: origin, sites, perms },
            DialogEvent::Enable,
            back,
            forward,
        ) == (DeedView::EnableAddon(addon_id@), false),
        outcome(
            Dialog::AddonConsent { addon_id, name: message, version: origin, sites, perms },
            DialogEvent::Cancel,
            back,
            forward,
        ) == (DeedView::Nothing, false),
{
}

/// The menu goes where it says, where there is somewhere to go; a click past it closes it.
pub proof fn the_menu_goes_where_it_says(h: u64)
    ensures
        outcome(Dialog::ContextMenu { handle: h }, DialogEvent::Back, true, false) == (
            DeedView::GoBack,
            false,
        ),
        outcome(Dialog::ContextMenu { handle: h }, DialogEvent::Forward, false, true) == (
            DeedView::GoForward,
            false,
        ),
        outcome(Dialog::ContextMenu { handle: h }, DialogEvent::Back, false, true).1,
        outcome(Dialog::ContextMenu { handle: h }, DialogEvent::Forward, true, false).1,
        outcome(Dialog::ContextMenu { handle: h }, DialogEvent::Reload, false, false) == (
            DeedView::Reload,
            false,
        ),
        outcome(Dialog::ContextMenu { handle: h }, DialogEvent::Elsewhere, true, true) == (
            DeedView::Nothing,
            false,
        ),
{
}

/// A colour is handed on as it was typed, and a text that is no colour as none.
pub proof fn colours_are_handed_on(hex: String, h: u64, c: Rgb)
    requires
        hex@ == codec::colour_text(c),
    ensures
        outcome(Dialog::Color { hex, handle: h }, DialogEvent::Accept, false, false) == (
            DeedView::Pick(h, Some(c)),
            false,
        ),
{
    codec::colour_round_trip(c);
}

/// A dialog in which nothing happens stays as it is; a dialog that asks, asks last.
pub proof fn dialogs_wait_their_turn(d: Dialog, items: Seq<Dialog>, back: bool, forward: bool)
    ensures
        outcome(d, DialogEvent::Nothing, back, forward) == (DeedView::Nothing, true),
        items.len() < 32 ==> pushed(items, d) == items.push(d),
        items.len() >= 32 ==> pushed(items, d) == items,
{
}

/// The dialogs that an event has not closed stay, in their order, and no other does.
pub proof fn unanswered_dialogs_stay(
    items: Seq<Dialog>,
    events: Seq<DialogEvent>,
    back: bool,
    forward: bool,
    n: nat,
)
    requires
        n < items.len(),
    ensures
        n >= events.len() || events[n as int] == DialogEvent::Nothing ==> still_open(
            items,
            events,
            back,
            forward,
            n + 1,
        ) == still_open(items, events, back, forward, n).push(items[n as int]),
        n < events.len() && !outcome(items[n as int], events[n as int], back, forward).1
            ==> still_open(items, events, back, forward, n + 1) == still_open(
            items,
            events,
            back,
            forward,
            n,
        ),
        still_open(items, events, back, forward, 0).len() == 0,
{
}

/// When a page takes back what it asked, the menus stay and everything else goes.
pub proof fn only_menus_outlive_their_page(items: Seq<Dialog>)
    ensures
        menus(items) == items.filter(|d: Dialog| d is ContextMenu),
    decreases items.len(),
{
    reveal(Seq::filter);
    if items.len() > 0 {
        only_menus_outlive_their_page(items.drop_last());
    }
}

/// A list is shown row by row; a group is shown under its heading, which cannot be chosen, with its
/// own rows behind it.
pub proof fn groups_are_shown_under_their_heading(items: Seq<SelectItem>, item: SelectItem)
    ensures
        flattened(Seq::empty()).len() == 0,
        item matches SelectItem::Row(o) ==> flattened(items.push(item)) == flattened(items).push(o@),
        item matches SelectItem::Group(label, rows) ==> {
            let r = flattened(items.push(item));
            let n = flattened(items).len() as int;
            &&& r.len() == n + 1 + rows@.len()
            &&& r.take(n) == flattened(items)
            &&& r[n].id is None && r[n].disabled && r[n].label == label@
            &&& forall|k: int| 0 <= k < rows@.len() ==> #[trigger] r[n + 1 + k] == rows@[k]@
        },
{
    assert(items.push(item).drop_last() =~= items);
    match item {
        SelectItem::Row(o) => {
            assert(flattened(items.push(item)) =~= flattened(items).push(o@));
        },
        SelectItem::Group(label, rows) => {
            let r = flattened(items.push(item));
            let n = flattened(items).len() as int;
            assert(r.take(n) =~= flattened(items));
        },
    }
}

/// Without patterns every file is offered; with patterns one whose ending is among them, whatever its
/// case, and no other.
pub proof fn files_are_offered_by_their_ending(patterns: Seq<Seq<char>>, e: Seq<char>)
    ensures
        offers_file(Seq::empty(), Some(e)),
        offers_file(Seq::empty(), None),
        patterns.len() > 0 ==> (offers_file(patterns, Some(e)) <==> exists|i: int|
            0 <= i < patterns.len() && #[trigger] patterns[i] == unicode::lowercase(e)),
        patterns.len() > 0 ==> !offers_file(patterns, None),
{
}

/// The question for a login says who asks: the site, or the proxy at an address.
pub proof fn logins_say_who_asks(url: Seq<char>)
    ensures
        login_message(url, true) == "The proxy at "@ + url + " requires a username and password."@,
        login_message(url, false) == url + " requires a username and password."@,
{
}

} // verus!
