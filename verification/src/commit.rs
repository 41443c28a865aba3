//! The commit record the engine works on.
//!
//! A commit is immutable once created: an identity, the identities of its
//! parents, the author timestamp in seconds since the epoch, its message and
//! the message's first line (the summary), and the identity of the tree of
//! file content it captures.  Identities are plain numbers handed out by the
//! surrounding program, which keeps the mapping to the storage layer's
//! content-addressed names.

use vstd::prelude::*;
use vstd::string::*;
use crate::render;

verus! {

/// The mathematical value of a [`Commit`].
#[verifier::ext_equal]
pub struct CommitView {
    pub id: u64,
    pub parents: Seq<u64>,
    pub timestamp: i64,
    pub summary: Seq<char>,
    pub message: Seq<char>,
    pub tree: u64,
}

/// A single commit: identity, parent identities, author timestamp, summary
/// line, full message, and tree identity.
pub struct Commit {
    pub id: u64,
    pub parents: Vec<u64>,
    pub timestamp: i64,
    pub summary: String,
    pub message: String,
    pub tree: u64,
}

impl View for Commit {
    type V = CommitView;

    open spec fn view(&self) -> CommitView {
        CommitView {
            id: self.id,
            parents: self.parents@,
            timestamp: self.timestamp,
            summary: self.summary@,
            message: self.message@,
            tree: self.tree,
        }
    }
}

/// Length of the leading stretch of `s` that holds no line break: the index
/// of the first `'\n'`, or the length of `s` when there is none.
pub open spec fn line_break(s: Seq<char>) -> nat
    decreases s.len(),
{
    if s.len() == 0 {
        0
    } else if s[0] == '\n' {
        0
    } else {
        1 + line_break(s.skip(1))
    }
}

/// The first line of a text: everything before the first `'\n'`.
pub open spec fn spec_first_line(s: Seq<char>) -> Seq<char> {
    s.take(line_break(s) as int)
}

/// [`line_break`] is the index that a left-to-right search finds.
proof fn lemma_line_break_unique(s: Seq<char>, i: int)
    requires
        0 <= i <= s.len(),
        forall|j: int| 0 <= j < i ==> s[j] != '\n',
        i < s.len() ==> s[i] == '\n',
    ensures
        line_break(s) == i,
    decreases s.len(),
{
    if s.len() == 0 {
    } else if s[0] == '\n' {
    } else {
        assert(s[0] != '\n');
        assert(i >= 1);
        assert(forall|j: int| 0 <= j < i - 1 ==> s.skip(1)[j] == s[j + 1]);
        lemma_line_break_unique(s.skip(1), i - 1);
    }
}

/// Returns the first line of a text.
pub fn first_line(s: &str) -> (r: String)
    ensures
        r@ == spec_first_line(s@),
{
    let len = s.unicode_len();
    let mut i: usize = 0;
    while i < len && s.get_char(i) != '\n'
        invariant
            i <= len,
            len == s@.len(),
            forall|j: int| 0 <= j < i ==> s@[j] != '\n',
        decreases len - i,
    {
        i = i + 1;
    }
    proof {
        lemma_line_break_unique(s@, i as int);
    }
    s.substring_char(0, i).to_owned()
}

/// The finished display line for a commit, as a function of its value and
/// the current time.
pub open spec fn spec_format(c: CommitView, now: int) -> Seq<char> {
    render::spec_format(c.timestamp as int, c.summary, now)
}

impl Commit {
    /// A field-for-field copy with the same value.
    pub fn duplicate(&self) -> (r: Commit)
        ensures
            r@ == self@,
    {
        Commit {
            id: self.id,
            parents: self.parents.clone(),
            timestamp: self.timestamp,
            summary: self.summary.clone(),
            message: self.message.clone(),
            tree: self.tree,
        }
    }

    /// Renders this commit as a single bounded line: its age in whole hours
    /// left-aligned in a fixed-width field, a space, and its summary,
    /// truncated with a trailing `"..."` when over the length bound.
    ///
    /// The result depends only on the commit's timestamp, its summary, and
    /// `now`; two calls with the same `now` render the same line.
    pub fn format(&self, now: i64) -> (r: String)
        requires
            i64::MIN <= now - self.timestamp <= i64::MAX,
        ensures
            r@ == spec_format(self@, now as int),
    {
        render::format_line(self.timestamp, self.summary.as_str(), now)
    }
}

/// Rendering is a pure function of the commit's timestamp and summary and of
/// the supplied time: no other field of the commit reaches the output.
pub proof fn lemma_format_is_pure(c1: CommitView, c2: CommitView, now: int)
    requires
        c1.timestamp == c2.timestamp,
        c1.summary == c2.summary,
    ensures
        spec_format(c1, now) == spec_format(c2, now),
{
}

/// The truncation law: when the rendered line would run over the length
/// bound, the output is exactly the first [`crate::MAX_MESSAGE_LENGTH`]
/// characters of it followed by `"..."`.
pub proof fn lemma_format_truncation(c: CommitView, now: int)
    requires
        render::spec_rendered(c.timestamp as int, c.summary, now).len() > crate::MAX_MESSAGE_LENGTH,
    ensures
        spec_format(c, now).len() == crate::MAX_MESSAGE_LENGTH + 3,
        spec_format(c, now).take(crate::MAX_MESSAGE_LENGTH as int)
            == render::spec_rendered(c.timestamp as int, c.summary, now)
                .take(crate::MAX_MESSAGE_LENGTH as int),
        spec_format(c, now).skip(crate::MAX_MESSAGE_LENGTH as int) == seq!['.', '.', '.'],
{
    let full = render::spec_rendered(c.timestamp as int, c.summary, now);
    let out = spec_format(c, now);
    assert(out == full.take(crate::MAX_MESSAGE_LENGTH as int) + seq!['.', '.', '.']);
    assert(out.take(crate::MAX_MESSAGE_LENGTH as int) =~= full.take(
        crate::MAX_MESSAGE_LENGTH as int,
    ));
    assert(out.skip(crate::MAX_MESSAGE_LENGTH as int) =~= seq!['.', '.', '.']);
}

} // verus!
