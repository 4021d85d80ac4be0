//! Inlays shown in an editor: their identifiers, how a hint's text is padded,
//! and the editor's inline-value settings.

use vstd::prelude::*;

verus! {

/// Identifies an inlay by its source and a number unique within that source.
#[derive(Clone, Copy, Debug, PartialEq, Eq, Structural, PartialOrd, Ord, Hash)]
pub enum InlayId {
    EditPrediction(usize),
    DebuggerValue(usize),
    Hint(usize),
    Color(usize),
}

impl InlayId {
    /// The number carried by the identifier, whatever its source.
    pub open spec fn spec_id(self) -> usize {
        match self {
            InlayId::EditPrediction(id) => id,
            InlayId::DebuggerValue(id) => id,
            InlayId::Hint(id) => id,
            InlayId::Color(id) => id,
        }
    }

    pub fn id(&self) -> (r: usize)
        ensures
            r == self.spec_id(),
    {
        match self {
            InlayId::EditPrediction(id) => *id,
            InlayId::DebuggerValue(id) => *id,
            InlayId::Hint(id) => *id,
            InlayId::Color(id) => *id,
        }
    }
}

/// Inlays to take away and to add in one update of what is shown.
pub struct InlaySplice<P> {
    pub to_remove: Vec<InlayId>,
    pub to_insert: Vec<Inlay<P>>,
}

/// A hint to be shown inline, with the padding it asks for on either side.
pub struct InlayHint {
    pub text: String,
    pub padding_left: bool,
    pub padding_right: bool,
}

/// Text shown at `position` in a buffer without being part of its content.
pub struct Inlay<P> {
    pub id: InlayId,
    pub position: P,
    pub text: String,
}

/// `text` with a space added at the end where `right` asks for padding and
/// it does not already end in one, then a space added at the front where
/// `left` asks for padding and it does not already start with one.
pub open spec fn padded(text: Seq<char>, left: bool, right: bool) -> Seq<char> {
    let with_right = if right && (text.len() == 0 || text.last() != ' ') {
        text.push(' ')
    } else {
        text
    };
    if left && (with_right.len() == 0 || with_right[0] != ' ') {
        seq![' '] + with_right
    } else {
        with_right
    }
}

/// Relies on `String::push`, which appends one character.
#[verifier::external_body]
fn push_char(s: &mut String, c: char)
    ensures
        final(s)@ == old(s)@.push(c),
{
    s.push(c)
}

/// Relies on `String::insert` at byte index 0, always a character boundary,
/// which puts one character in front.
#[verifier::external_body]
fn prepend_char(s: &mut String, c: char)
    ensures
        final(s)@ == seq![c] + old(s)@,
{
    s.insert(0, c)
}

impl<P> Inlay<P> {
    /// An inlay for an inlay hint, its text padded as the hint asks.
    pub fn hint(id: usize, position: P, hint: &InlayHint) -> (r: Self)
        ensures
            r.id == InlayId::Hint(id),
            r.position == position,
            r.text@ == padded(hint.text@, hint.padding_left, hint.padding_right),
    {
        let mut text = hint.text.clone();
        if hint.padding_right {
            let n = text.unicode_len();
            if n == 0 || text.get_char(n - 1) != ' ' {
                push_char(&mut text, ' ');
            }
        }
        if hint.padding_left {
            let n = text.unicode_len();
            if n == 0 || text.get_char(0) != ' ' {
                prepend_char(&mut text, ' ');
            }
        }
        Inlay { id: InlayId::Hint(id), position, text }
    }

    /// A hint inlay with exactly the given text.
    pub fn mock_hint(id: usize, position: P, text: String) -> (r: Self)
        ensures
            r.id == InlayId::Hint(id),
            r.position == position,
            r.text@ == text@,
    {
        Inlay { id: InlayId::Hint(id), position, text }
    }

    /// An inlay showing an edit prediction.
    pub fn edit_prediction(id: usize, position: P, text: String) -> (r: Self)
        ensures
            r.id == InlayId::EditPrediction(id),
            r.position == position,
            r.text@ == text@,
    {
        Inlay { id: InlayId::EditPrediction(id), position, text }
    }

    /// An inlay showing a value from the debugger.
    pub fn debugger(id: usize, position: P, text: String) -> (r: Self)
        ensures
            r.id == InlayId::DebuggerValue(id),
            r.position == position,
            r.text@ == text@,
    {
        Inlay { id: InlayId::DebuggerValue(id), position, text }
    }
}

/// The inline values shown by the debugger, and whether they are shown.
pub struct InlineValueCache {
    pub enabled: bool,
    pub inlays: Vec<InlayId>,
}

impl InlineValueCache {
    pub fn new(enabled: bool) -> (r: Self)
        ensures
            r.enabled == enabled,
            r.inlays@.len() == 0,
    {
        InlineValueCache { enabled, inlays: Vec::new() }
    }
}

/// The editor state that the inline-value settings belong to.
pub struct Editor {
    pub inline_value_cache: InlineValueCache,
}

impl Editor {
    pub fn new(inline_values_enabled: bool) -> (r: Self)
        ensures
            r.inline_value_cache.enabled == inline_values_enabled,
            r.inline_value_cache.inlays@.len() == 0,
    {
        Editor { inline_value_cache: InlineValueCache::new(inline_values_enabled) }
    }

    pub fn inline_values_enabled(&self) -> (r: bool)
        ensures
            r == self.inline_value_cache.enabled,
    {
        self.inline_value_cache.enabled
    }
}

} // verus!
