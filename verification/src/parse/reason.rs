//! One event of the analysis stream: a compiler message, a build-lifecycle
//! marker, or an event of a kind this library does not recognise.

use vstd::prelude::*;

use crate::options::IncludeNotes;
use crate::options::RenderOptions;
use crate::options::RenderStyle;
use crate::theme::Theme;

use super::message::spec_continuation;
use super::message::spec_message_render;
use super::Message;

verus! {

/// One analysis event.
#[derive(Debug)]
pub enum Reason {
    CompilerMessage { message: Message },
    BuildFinished { success: bool },
    Ignored,
}

impl Reason {
    /// The carried message, if any, is well-formed.
    pub open spec fn wf(self) -> bool {
        match self {
            Reason::CompilerMessage { message } => message.wf(),
            _ => true,
        }
    }

    /// A diagnostic is empty — droppable — when it is a lifecycle marker, an
    /// unrecognised event, or a compiler message without spans and children.
    pub open spec fn spec_is_empty(self) -> bool {
        match self {
            Reason::CompilerMessage { message } => message.spans@.len() == 0
                && message.children@.len() == 0,
            _ => true,
        }
    }

    /// Whether this event is droppable.
    pub fn is_empty(&self) -> (r: bool)
        ensures
            r == self.spec_is_empty(),
    {
        match self {
            Reason::CompilerMessage { message } => message.spans.len() == 0
                && message.children.len() == 0,
            _ => true,
        }
    }

    /// Whether this event carries anything to show.
    pub fn is_not_empty(&self) -> (r: bool)
        ensures
            r == !self.spec_is_empty(),
    {
        !self.is_empty()
    }

    /// What rendering one event yields: the rendered message for a compiler
    /// message, and nothing for a lifecycle marker (successful or not) or an
    /// unrecognised event.
    pub open spec fn spec_render(
        self,
        style: RenderStyle,
        inc: IncludeNotes,
        cont: Option<Seq<char>>,
        th: Theme,
    ) -> Seq<char> {
        match self {
            Reason::CompilerMessage { message } => spec_message_render(
                message,
                style,
                inc,
                cont,
                th,
            ),
            _ => Seq::empty(),
        }
    }

    /// Renders this event.
    pub fn render(&self, render_options: &RenderOptions, theme: &Theme) -> (r: String)
        requires
            self.wf(),
        ensures
            r@ == self.spec_render(
                render_options.render,
                render_options.include_notes,
                spec_continuation(*render_options),
                *theme,
            ),
    {
        match self {
            Reason::CompilerMessage { message } => message.render(render_options, theme),
            Reason::BuildFinished { success: _ } => String::new(),
            Reason::Ignored => String::new(),
        }
    }
}

} // verus!
