//! The engine's data side: the commands it receives, how they change the
//! document and the style sheet, and when layout runs.
use crate::document::{after_create, after_set_attribute, set_parent_outcome, DocState, Document};
use crate::id::Id;
use crate::sheet::{Rule, StyleSheet};
use vstd::prelude::*;

verus! {

/// Why running the engine failed.
#[derive(Debug)]
pub enum RunError {
    AlreadyRunning,
    UnknownError(String),
}

/// Messages to the window thread.
#[derive(Clone, Copy, Debug, PartialEq, Eq, Structural)]
pub enum WindowMessage {
    Redraw,
}

/// A request to the data side of the engine.
#[derive(Debug, PartialEq)]
pub enum Command {
    AddStylesheet(String),
    CreateNode(Id, Option<String>),
    SetParent(Id, Id),
    SetAttribute(Id, String, String),
    Layout,
}

/// What a command asks for, with its text as characters.
pub enum CommandView {
    AddStylesheet(Seq<char>),
    CreateNode(Id, Option<Seq<char>>),
    SetParent(Id, Id),
    SetAttribute(Id, Seq<char>, Seq<char>),
    Layout,
}

impl View for Command {
    type V = CommandView;

    open spec fn view(&self) -> CommandView {
        match self {
            Command::AddStylesheet(css) => CommandView::AddStylesheet(css@),
            Command::CreateNode(id, text) => CommandView::CreateNode(
                *id,
                match text {
                    Some(t) => Some(t@),
                    None => None,
                },
            ),
            Command::SetParent(p, c) => CommandView::SetParent(*p, *c),
            Command::SetAttribute(id, k, v) => CommandView::SetAttribute(*id, k@, v@),
            Command::Layout => CommandView::Layout,
        }
    }
}

/// What the caller has to do after a command was applied.
#[derive(Debug, PartialEq)]
pub enum CommandEffect {
    /// The document changed: schedule a layout.
    Changed,
    /// Run layout now.
    LayoutNow,
    /// Parse this style sheet text and add its rules.
    ParseStylesheet(String),
}

/// The document and the rules that lay it out.
pub struct LayoutContext<V> {
    pub document: Document,
    pub style_sheet: StyleSheet<V>,
}

impl<V> LayoutContext<V> {
    pub fn new() -> (r: Self)
        ensures
            r.document.wf(),
            r.document.state() == crate::document::initial_state(),
            r.document.next_auto_id() == 1,
            r.style_sheet.rules@.len() == 0,
    {
        LayoutContext { document: Document::new(), style_sheet: StyleSheet::new() }
    }

    /// Append the rules of a parsed style sheet, in order.
    pub fn add_rules(&mut self, sheet: StyleSheet<V>)
        ensures
            final(self).style_sheet.rules@ == old(self).style_sheet.rules@ + sheet.rules@,
            final(self).document == old(self).document,
    {
        let mut rules = sheet.rules;
        self.style_sheet.rules.append(&mut rules);
    }

    /// Apply a command to the document; report what else it asks for.
    /// A `set_parent` that fails passes its error on.
    pub fn apply_command(&mut self, command: Command) -> (r: Result<CommandEffect, &'static str>)
        requires
            old(self).document.wf(),
        ensures
            final(self).document.wf(),
            final(self).document.next_auto_id() == old(self).document.next_auto_id(),
            final(self).style_sheet.rules@ == old(self).style_sheet.rules@,
            match command {
                Command::AddStylesheet(css) => r == Ok::<CommandEffect, &'static str>(
                    CommandEffect::ParseStylesheet(css),
                ) && final(self).document.state() == old(self).document.state(),
                Command::CreateNode(id, text) => r == Ok::<CommandEffect, &'static str>(
                    CommandEffect::Changed,
                ) && final(self).document.state() == after_create(
                    old(self).document.state(),
                    id,
                    text,
                ),
                Command::SetParent(p, c) => {
                    let (res, st) = set_parent_outcome(old(self).document.state(), p, c);
                    &&& final(self).document.state() == st
                    &&& res is Ok ==> r == Ok::<CommandEffect, &'static str>(CommandEffect::Changed)
                    &&& res is Err ==> r == Err::<CommandEffect, &'static str>(res->Err_0)
                },
                Command::SetAttribute(id, k, v) => r == Ok::<CommandEffect, &'static str>(
                    CommandEffect::Changed,
                ) && final(self).document.state() == after_set_attribute(
                    old(self).document.state(),
                    id,
                    k@,
                    v,
                ),
                Command::Layout => r == Ok::<CommandEffect, &'static str>(CommandEffect::LayoutNow)
                    && final(self).document.state() == old(self).document.state(),
            },
            command_outcome(old(self).document.state(), command) matches Ok(d2) ==> r is Ok
                && final(self).document.state() == d2,
            command_outcome(old(self).document.state(), command) matches Err(e) ==> r == Err::<
                CommandEffect,
                &'static str,
            >(e),
    {
        match command {
            Command::AddStylesheet(css) => Ok(CommandEffect::ParseStylesheet(css)),
            Command::CreateNode(id, text) => {
                self.document.create_node(id, text);
                Ok(CommandEffect::Changed)
            },
            Command::SetParent(p, c) => match self.document.set_parent(p, c) {
                Ok(()) => Ok(CommandEffect::Changed),
                Err(e) => Err(e),
            },
            Command::SetAttribute(id, k, v) => {
                self.document.set_attribute(id, k, v);
                Ok(CommandEffect::Changed)
            },
            Command::Layout => Ok(CommandEffect::LayoutNow),
        }
    }
}

/// The document after a command, or the error that `apply_command` reports.
pub open spec fn command_outcome(d: DocState, c: Command) -> Result<DocState, &'static str> {
    match c {
        Command::CreateNode(id, text) => Ok(after_create(d, id, text)),
        Command::SetParent(p, ch) => {
            let (r, d2) = set_parent_outcome(d, p, ch);
            if r is Ok {
                Ok(d2)
            } else {
                Err(r->Err_0)
            }
        },
        Command::SetAttribute(id, k, v) => Ok(after_set_attribute(d, id, k@, v)),
        _ => Ok(d),
    }
}

/// The document after applying `cmds` in order, or the first error.
pub open spec fn replay(d: DocState, cmds: Seq<Command>) -> Result<DocState, &'static str>
    decreases cmds.len(),
{
    if cmds.len() == 0 {
        Ok(d)
    } else {
        match replay(d, cmds.drop_last()) {
            Ok(d1) => command_outcome(d1, cmds.last()),
            Err(e) => Err(e),
        }
    }
}

/// How long a change waits for more changes before layout runs, in
/// milliseconds.
pub const LAYOUT_DEBOUNCE_MS: u64 = 100;

/// What the data side does next.
#[derive(Debug, PartialEq, Eq, Structural)]
pub enum NextStep {
    /// The deadline has passed: run layout now.
    RunLayout,
    /// Wait for a command at most this many milliseconds.
    WaitAtMost(u64),
    /// No layout is pending: wait for the next command.
    WaitForCommand,
}

/// When the next layout is due. Changes are batched: the first change after
/// a layout sets a deadline; later changes do not move it.
pub struct LayoutSchedule {
    pub deadline: Option<u64>,
}

impl LayoutSchedule {
    pub fn new() -> (r: Self)
        ensures
            r.deadline is None,
    {
        LayoutSchedule { deadline: None }
    }

    /// A change to the document or the style sheet at time `now`.
    pub fn note_change(&mut self, now: u64)
        requires
            now + LAYOUT_DEBOUNCE_MS <= u64::MAX,
        ensures
            final(self).deadline == if old(self).deadline is Some {
                old(self).deadline
            } else {
                Some((now + LAYOUT_DEBOUNCE_MS) as u64)
            },
    {
        if self.deadline.is_none() {
            self.deadline = Some(now + LAYOUT_DEBOUNCE_MS);
        }
    }

    /// Layout ran on request: nothing is pending.
    pub fn layout_done(&mut self)
        ensures
            final(self).deadline is None,
    {
        self.deadline = None;
    }

    /// What to do at time `now`. A passed deadline is cleared, as layout runs.
    pub fn next_step(&mut self, now: u64) -> (r: NextStep)
        ensures
            match old(self).deadline {
                Some(d) => if d <= now {
                    r == NextStep::RunLayout && final(self).deadline is None
                } else {
                    r == NextStep::WaitAtMost((d - now) as u64) && final(self).deadline == old(
                        self,
                    ).deadline
                },
                None => r == NextStep::WaitForCommand && final(self).deadline is None,
            },
    {
        match self.deadline {
            Some(d) => if d <= now {
                self.deadline = None;
                NextStep::RunLayout
            } else {
                NextStep::WaitAtMost(d - now)
            },
            None => NextStep::WaitForCommand,
        }
    }
}

/// The deadline after a change at `now`.
pub open spec fn deadline_after_change(deadline: Option<u64>, now: u64) -> Option<u64> {
    if deadline is Some {
        deadline
    } else {
        Some((now + LAYOUT_DEBOUNCE_MS) as u64)
    }
}

/// Changes are batched: after changes at `t1 <= t2`, with no layout in
/// between, layout is due `LAYOUT_DEBOUNCE_MS` after the first one.
pub proof fn lemma_changes_batched(t1: u64, t2: u64)
    requires
        t1 + LAYOUT_DEBOUNCE_MS <= u64::MAX,
    ensures
        deadline_after_change(deadline_after_change(None, t1), t2) == Some((t1 + LAYOUT_DEBOUNCE_MS) as u64),
{
}

} // verus!

verus! {

/// The flexbox layout engine. It holds no state; the layout arithmetic on
/// lengths is done by the code that instantiates the numeric type.
pub struct FlexLayoutEngine {}

impl FlexLayoutEngine {
    pub fn new() -> (r: Self) {
        FlexLayoutEngine {}
    }
}

} // verus!
