use vstd::prelude::*;

verus! {

/// The text buffer that collects all command output and status messages
/// shown in the terminal panel.
///
/// It only ever grows by whole appends, or is emptied at once; it is never
/// truncated or edited in the middle.
pub struct OutputSink {
    text: String,
}

impl View for OutputSink {
    type V = Seq<char>;

    closed spec fn view(&self) -> Seq<char> {
        self.text@
    }
}

impl OutputSink {
    /// A sink that starts out holding `initial`.
    pub fn new(initial: &str) -> (r: OutputSink)
        ensures
            r@ == initial@,
    {
        OutputSink { text: initial.to_string() }
    }

    /// Adds `text` at the end of the buffer, whole.
    pub fn append(&mut self, text: &str)
        ensures
            final(self)@ == appended(old(self)@, text@),
    {
        self.text.append(text);
    }

    /// Empties the buffer.
    pub fn clear(&mut self)
        ensures
            final(self)@ == cleared(old(self)@),
    {
        self.text = String::new();
    }

    /// A copy of the current contents, for display.
    pub fn snapshot(&self) -> (r: String)
        ensures
            r@ == self@,
    {
        self.text.clone()
    }
}

/// The buffer `buffer` after `text` was appended to it.
pub open spec fn appended(buffer: Seq<char>, text: Seq<char>) -> Seq<char> {
    buffer + text
}

/// The buffer `buffer` after it was cleared.
pub open spec fn cleared(buffer: Seq<char>) -> Seq<char> {
    Seq::empty()
}

/// The buffer after `texts` were appended to `start`, one after another,
/// in the order in which they got hold of the buffer.
pub open spec fn after_appends(start: Seq<char>, texts: Seq<Seq<char>>) -> Seq<char>
    decreases texts.len(),
{
    if texts.len() == 0 {
        start
    } else {
        appended(after_appends(start, texts.drop_last()), texts.last())
    }
}

/// The summed length of `texts`.
pub open spec fn total_len(texts: Seq<Seq<char>>) -> nat
    decreases texts.len(),
{
    if texts.len() == 0 {
        0
    } else {
        total_len(texts.drop_last()) + texts.last().len()
    }
}

/// No append is lost: however the appends of many tasks are serialized, the
/// buffer ends up exactly as long as what it held plus everything appended.
pub proof fn appends_lose_nothing(start: Seq<char>, texts: Seq<Seq<char>>)
    ensures
        after_appends(start, texts).len() == start.len() + total_len(texts),
    decreases texts.len(),
{
    if texts.len() > 0 {
        appends_lose_nothing(start, texts.drop_last());
    }
}

/// A clear and an append that race are applied one whole after the other:
/// with the clear first the buffer holds exactly the appended text, with the
/// append first it is empty; no fragment of either survives. With no append
/// after it, a clear leaves the buffer empty.
pub proof fn clear_and_append_serialize(buffer: Seq<char>, text: Seq<char>)
    ensures
        cleared(buffer).len() == 0,
        appended(cleared(buffer), text) == text,
        cleared(appended(buffer, text)).len() == 0,
{
    assert(Seq::<char>::empty() + text =~= text);
}

} // verus!
