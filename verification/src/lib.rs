//! Lexical recognition of source-code comments.
//!
//! Two leaf recognizers, [`single_comment`] for `//...` line comments and
//! [`multi_comment`] for `/*...*/` block comments, each consume a fixed
//! opening marker and then a span of raw text up to their closing condition,
//! producing a [`Comment`].  The dispatcher [`comment`] tries the block form
//! first, then the line form, and wraps the first success in a [`Token`].
//! Each recognizer is a pure function from the remaining input to either a
//! value together with the unconsumed rest, or a failure that consumes
//! nothing.

use vstd::prelude::*;
use vstd::string::*;

verus! {

/// Which of the two comment grammars produced a comment.
#[derive(Debug, PartialEq, Eq, Structural, Clone, Copy)]
pub enum Kind {
    Single,
    Multi,
}

/// A recognized comment: its kind and the exact text strictly between the
/// opening and closing markers, verbatim, possibly empty.
#[derive(Debug, Clone)]
pub struct Comment {
    pub kind: Kind,
    pub content: String,
}

impl Comment {
    pub fn from_parts(content: String, kind: Kind) -> (c: Self)
        ensures
            c.kind == kind,
            c.content@ == content@,
    {
        Comment { content, kind }
    }

    pub fn is_multi_line(&self) -> (r: bool)
        ensures
            r == (self.kind == Kind::Multi),
    {
        self.kind == Kind::Multi
    }

    pub fn is_single_line(&self) -> (r: bool)
        ensures
            r == (self.kind == Kind::Single),
    {
        self.kind == Kind::Single
    }
}

impl PartialEq for Comment {
    fn eq(&self, other: &Comment) -> (r: bool) {
        self.kind == other.kind && self.content == other.content
    }
}

impl vstd::std_specs::cmp::PartialEqSpecImpl for Comment {
    open spec fn obeys_eq_spec() -> bool {
        true
    }

    open spec fn eq_spec(&self, other: &Comment) -> bool {
        self.kind == other.kind && self.content@ == other.content@
    }
}

/// The generic token that a full tokenizer would emit; this crate produces
/// only its comment-carrying variant.
#[derive(Debug, Clone)]
pub enum Token {
    Comment(Comment),
}

impl PartialEq for Token {
    fn eq(&self, other: &Token) -> (r: bool) {
        match (self, other) {
            (Token::Comment(a), Token::Comment(b)) => a == b,
        }
    }
}

impl vstd::std_specs::cmp::PartialEqSpecImpl for Token {
    open spec fn obeys_eq_spec() -> bool {
        true
    }

    open spec fn eq_spec(&self, other: &Token) -> bool {
        match (self, other) {
            (Token::Comment(a), Token::Comment(b)) => a.kind == b.kind && a.content@ == b.content@,
        }
    }
}

/// The serialized form of a comment: `//` before the content for the single
/// kind, `/*` before and `*/` after it for the multi kind.
pub open spec fn spec_render(kind: Kind, content: Seq<char>) -> Seq<char> {
    match kind {
        Kind::Single => seq!['/', '/'] + content,
        Kind::Multi => seq!['/', '*'] + content + seq!['*', '/'],
    }
}

impl Comment {
    /// Render the comment back to source text, exactly: no escaping, no
    /// normalization, and no line terminator appended to the single kind.
    pub fn to_string(&self) -> (r: String)
        ensures
            r@ == spec_render(self.kind, self.content@),
    {
        proof {
            reveal_strlit("//");
            reveal_strlit("/*");
            reveal_strlit("*/");
        }
        match self.kind {
            Kind::Single => {
                let mut s = String::from_str("//");
                s.append(self.content.as_str());
                proof {
                    assert(s@ =~= spec_render(self.kind, self.content@));
                }
                s
            },
            Kind::Multi => {
                let mut s = String::from_str("/*");
                s.append(self.content.as_str());
                s.append("*/");
                proof {
                    assert(s@ =~= spec_render(self.kind, self.content@));
                }
                s
            },
        }
    }
}

/// Whether `c` opens a line-terminator sequence.  The accepted conventions
/// are LF, CR (alone or opening CRLF), and the Unicode line and paragraph
/// separators; a single comment's content stops before any of them.
pub open spec fn spec_is_line_terminator(c: char) -> bool {
    c == '\n' || c == '\r' || c == '\u{2028}' || c == '\u{2029}'
}

/// The position of the first line terminator at or after `i`, or the end of
/// the input if none occurs.
pub open spec fn line_end(s: Seq<char>, i: int) -> int
    recommends
        0 <= i <= s.len(),
    decreases s.len() - i,
{
    if i >= s.len() {
        s.len() as int
    } else if spec_is_line_terminator(s[i]) {
        i
    } else {
        line_end(s, i + 1)
    }
}

/// The line-comment grammar: on input starting with `//`, the content runs
/// to (but does not include) the first line terminator, or to the end of the
/// input; the terminator itself is left unconsumed.  On any other input the
/// recognizer fails.
pub open spec fn spec_single_comment(s: Seq<char>) -> Option<(Seq<char>, Seq<char>)> {
    if s.len() >= 2 && s[0] == '/' && s[1] == '/' {
        let e = line_end(s, 2);
        Some((s.subrange(2, e), s.subrange(e, s.len() as int)))
    } else {
        None
    }
}

proof fn lemma_line_end_bounds(s: Seq<char>, i: int)
    requires
        0 <= i <= s.len(),
    ensures
        i <= line_end(s, i) <= s.len(),
        forall|k: int| i <= k < line_end(s, i) ==> !spec_is_line_terminator(s[k]),
        line_end(s, i) < s.len() ==> spec_is_line_terminator(s[line_end(s, i)]),
    decreases s.len() - i,
{
    if i < s.len() && !spec_is_line_terminator(s[i]) {
        lemma_line_end_bounds(s, i + 1);
    }
}

proof fn lemma_line_end_at(s: Seq<char>, i: int, e: int)
    requires
        0 <= i <= e <= s.len(),
        forall|k: int| i <= k < e ==> !spec_is_line_terminator(s[k]),
        e == s.len() || spec_is_line_terminator(s[e]),
    ensures
        line_end(s, i) == e,
    decreases e - i,
{
    if i < e {
        lemma_line_end_at(s, i + 1, e);
    }
}

/// Executable test for [`spec_is_line_terminator`]; stands in for the
/// supplied line-terminator primitive of a surrounding tokenizer.
pub fn is_line_terminator(c: char) -> (r: bool)
    ensures
        r == spec_is_line_terminator(c),
{
    c == '\n' || c == '\r' || c == '\u{2028}' || c == '\u{2029}'
}

/// Recognize a line comment at the start of `input`.
///
/// Succeeds exactly when the input begins with `//`; the comment's content is
/// every character after the marker up to the first line terminator or the
/// end of the input, and the returned rest starts with the terminator, which
/// is not consumed.  On failure nothing is consumed: the caller's input is
/// untouched.
pub fn single_comment<'a>(input: &'a str) -> (r: Option<(Comment, &'a str)>)
    ensures
        match r {
            Some(p) => p.0.kind == Kind::Single && spec_single_comment(input@) == Some(
                (p.0.content@, p.1@),
            ),
            None => spec_single_comment(input@) is None,
        },
{
    proof {
        reveal_strlit("//");
    }
    let n = input.unicode_len();
    if n < 2 || !(input.get_char(0) == '/' && input.get_char(1) == '/') {
        return None;
    }
    let mut i: usize = 2;
    while i < n && !is_line_terminator(input.get_char(i))
        invariant
            2 <= i <= n == input@.len(),
            forall|k: int| 2 <= k < i ==> !spec_is_line_terminator(input@[k]),
        decreases n - i,
    {
        i += 1;
    }
    proof {
        lemma_line_end_at(input@, 2, i as int);
    }
    let content = String::from_str(input.substring_char(2, i));
    let rest = input.substring_char(i, n);
    Some((Comment::from_parts(content, Kind::Single), rest))
}

/// Whether the two-character closing marker `*/` stands at position `k`.
pub open spec fn spec_close_at(s: Seq<char>, k: int) -> bool {
    0 <= k && k + 2 <= s.len() && s[k] == '*' && s[k + 1] == '/'
}

/// The position of the first occurrence of `*/` at or after `i`, if any.
pub open spec fn first_close(s: Seq<char>, i: int) -> Option<int>
    recommends
        0 <= i,
    decreases s.len() - i,
{
    if i + 2 > s.len() {
        None
    } else if s[i] == '*' && s[i + 1] == '/' {
        Some(i)
    } else {
        first_close(s, i + 1)
    }
}

/// The block-comment grammar: on input starting with `/*`, the content is
/// everything before the first `*/` (no nesting: intervening `/*` openers are
/// plain content), and the closing marker itself is consumed.  The recognizer
/// fails on any other opening, and fails cleanly when no `*/` occurs in the
/// rest of the input.
pub open spec fn spec_multi_comment(s: Seq<char>) -> Option<(Seq<char>, Seq<char>)> {
    if s.len() >= 2 && s[0] == '/' && s[1] == '*' {
        match first_close(s, 2) {
            Some(j) => Some((s.subrange(2, j), s.subrange(j + 2, s.len() as int))),
            None => None,
        }
    } else {
        None
    }
}

proof fn lemma_first_close_at(s: Seq<char>, i: int, j: int)
    requires
        0 <= i <= j,
        spec_close_at(s, j),
        forall|k: int| i <= k < j ==> !(#[trigger] s[k] == '*' && s[k + 1] == '/'),
    ensures
        first_close(s, i) == Some(j),
    decreases j - i,
{
    if i < j {
        lemma_first_close_at(s, i + 1, j);
    }
}

proof fn lemma_first_close_none(s: Seq<char>, i: int)
    requires
        0 <= i,
        forall|k: int| i <= k && k + 2 <= s.len() ==> !(#[trigger] s[k] == '*' && s[k + 1] == '/'),
    ensures
        first_close(s, i) is None,
    decreases s.len() - i,
{
    if i + 2 <= s.len() {
        lemma_first_close_none(s, i + 1);
    }
}

/// Does the opening marker `/*` stand at the start of `input`?
fn multi_line_comment_start(input: &str) -> (r: bool)
    ensures
        r == (input@.len() >= 2 && input@[0] == '/' && input@[1] == '*'),
{
    let n = input.unicode_len();
    n >= 2 && input.get_char(0) == '/' && input.get_char(1) == '*'
}

/// Does the closing marker `*/` stand at position `pos` of `input`?
fn multi_line_comment_end(input: &str, pos: usize) -> (r: bool)
    requires
        pos <= input@.len(),
    ensures
        r == spec_close_at(input@, pos as int),
{
    let n = input.unicode_len();
    n - pos >= 2 && input.get_char(pos) == '*' && input.get_char(pos + 1) == '/'
}

/// Recognize a block comment at the start of `input`.
///
/// Succeeds exactly when the input begins with `/*` and the closing `*/`
/// occurs somewhere after it; the content is every character strictly between
/// the opening marker and the first `*/`, verbatim, embedded line terminators
/// and nested-looking `/*` openers included.  The first `*/` always closes
/// the comment, and is consumed.  On failure nothing is consumed: an
/// unterminated opener is reported the same way as a missing one.
pub fn multi_comment<'a>(input: &'a str) -> (r: Option<(Comment, &'a str)>)
    ensures
        match r {
            Some(p) => p.0.kind == Kind::Multi && spec_multi_comment(input@) == Some(
                (p.0.content@, p.1@),
            ),
            None => spec_multi_comment(input@) is None,
        },
{
    if !multi_line_comment_start(input) {
        return None;
    }
    let n = input.unicode_len();
    let mut j: usize = 2;
    while n - j >= 2 && !multi_line_comment_end(input, j)
        invariant
            2 <= j <= n == input@.len(),
            forall|k: int| 2 <= k < j ==> !(#[trigger] input@[k] == '*' && input@[k + 1] == '/'),
        decreases n - j,
    {
        j += 1;
    }
    if n - j < 2 {
        proof {
            lemma_first_close_none(input@, 2);
        }
        return None;
    }
    proof {
        lemma_first_close_at(input@, 2, j as int);
    }
    let content = String::from_str(input.substring_char(2, j));
    let rest = input.substring_char(j + 2, n);
    Some((Comment::from_parts(content, Kind::Multi), rest))
}

/// The comment rule as a whole: the block form is attempted first, and on
/// its failure the line form is attempted on the very same input (full
/// backtracking: a failed alternative consumes nothing).  The result carries
/// the kind that succeeded, its content, and the unconsumed rest.
pub open spec fn spec_comment(s: Seq<char>) -> Option<(Kind, Seq<char>, Seq<char>)> {
    match spec_multi_comment(s) {
        Some((content, rest)) => Some((Kind::Multi, content, rest)),
        None => match spec_single_comment(s) {
            Some((content, rest)) => Some((Kind::Single, content, rest)),
            None => None,
        },
    }
}

/// Recognize either comment form at the start of `input` and wrap the result
/// as a token.
///
/// The block form is tried first; if it fails, the line form sees the
/// original, unconsumed input.  When neither matches, the failure is local
/// and recoverable: nothing is consumed and no partial comment is produced,
/// so a caller may try other token rules at the same position.
pub fn comment<'a>(input: &'a str) -> (r: Option<(Token, &'a str)>)
    ensures
        match r {
            Some(p) => match p.0 {
                Token::Comment(c) => spec_comment(input@) == Some((c.kind, c.content@, p.1@)),
            },
            None => spec_comment(input@) is None,
        },
{
    if let Some((c, rest)) = multi_comment(input) {
        Some((Token::Comment(c), rest))
    } else if let Some((c, rest)) = single_comment(input) {
        Some((Token::Comment(c), rest))
    } else {
        None
    }
}

/// Content that a line comment can carry: no line terminator occurs in it.
pub open spec fn single_content_closed(content: Seq<char>) -> bool {
    forall|i: int| 0 <= i < content.len() ==> !spec_is_line_terminator(#[trigger] content[i])
}

/// Content that a block comment can carry: the closing marker `*/` does not
/// occur in it.
pub open spec fn multi_content_closed(content: Seq<char>) -> bool {
    forall|i: int|
        0 <= i && i + 1 < content.len() ==> !(#[trigger] content[i] == '*' && content[i + 1]
            == '/')
}

proof fn lemma_first_close_props(s: Seq<char>, i: int)
    requires
        0 <= i,
    ensures
        first_close(s, i) matches Some(j) ==> i <= j && spec_close_at(s, j) && (forall|k: int|
            i <= k < j ==> !(#[trigger] s[k] == '*' && s[k + 1] == '/')),
    decreases s.len() - i,
{
    if i + 2 <= s.len() && !(s[i] == '*' && s[i + 1] == '/') {
        lemma_first_close_props(s, i + 1);
    }
}

/// A successfully parsed comment's content never contains the closing marker
/// of its own kind: a line terminator could not have been taken into a single
/// comment's content, nor `*/` into a multi comment's.
pub proof fn lemma_parsed_content_closed(s: Seq<char>)
    ensures
        spec_comment(s) matches Some(p) ==> (p.0 == Kind::Single ==> single_content_closed(p.1))
            && (p.0 == Kind::Multi ==> multi_content_closed(p.1)),
{
    if s.len() >= 2 && s[0] == '/' && s[1] == '*' {
        lemma_first_close_props(s, 2);
    } else if s.len() >= 2 && s[0] == '/' && s[1] == '/' {
        lemma_line_end_bounds(s, 2);
    }
}

/// Rendering a comment whose content is free of its own closing marker and
/// parsing the rendering yields the same kind and content back, with nothing
/// left unconsumed.
pub proof fn lemma_render_then_parse(kind: Kind, content: Seq<char>)
    requires
        kind == Kind::Single ==> single_content_closed(content),
        kind == Kind::Multi ==> multi_content_closed(content),
    ensures
        spec_comment(spec_render(kind, content)) == Some((kind, content, Seq::<char>::empty())),
{
    let s = spec_render(kind, content);
    match kind {
        Kind::Single => {
            assert(s.len() == 2 + content.len());
            assert(s[0] == '/' && s[1] == '/');
            assert(forall|k: int| 2 <= k < s.len() ==> !spec_is_line_terminator(#[trigger] s[k]))
                by {
                assert(forall|k: int| 2 <= k < s.len() ==> #[trigger] s[k] == content[k - 2]);
            }
            lemma_line_end_at(s, 2, s.len() as int);
            assert(s.subrange(2, s.len() as int) =~= content);
            assert(s.subrange(s.len() as int, s.len() as int) =~= Seq::<char>::empty());
        },
        Kind::Multi => {
            let j = 2 + content.len() as int;
            assert(s.len() == 4 + content.len());
            assert(s[0] == '/' && s[1] == '*');
            assert(s[j] == '*' && s[j + 1] == '/');
            assert(forall|k: int| 2 <= k < j ==> !(#[trigger] s[k] == '*' && s[k + 1] == '/'))
                by {
                assert(forall|k: int| 2 <= k < j ==> #[trigger] s[k] == content[k - 2]);
            }
            lemma_first_close_at(s, 2, j);
            assert(s.subrange(2, j) =~= content);
            assert(s.subrange(j + 2, s.len() as int) =~= Seq::<char>::empty());
        },
    }
}

/// Round trip: any successfully parsed comment, rendered and parsed again,
/// yields an equal comment — the same kind and the same content — with
/// nothing left unconsumed.
pub proof fn lemma_round_trip(s: Seq<char>)
    ensures
        spec_comment(s) matches Some(p) ==> spec_comment(spec_render(p.0, p.1)) == Some(
            (p.0, p.1, Seq::<char>::empty()),
        ),
{
    if let Some((kind, content, _rest)) = spec_comment(s) {
        lemma_parsed_content_closed(s);
        lemma_render_then_parse(kind, content);
    }
}

/// Disjoint dispatch: on input beginning with `/*` the dispatcher never
/// produces a single-kind comment, and on input beginning with `//` it never
/// produces a multi-kind one — the two openers share no common prefix
/// conflict.
pub proof fn lemma_disjoint_dispatch(s: Seq<char>)
    ensures
        s.len() >= 2 && s[0] == '/' && s[1] == '*' ==> (spec_comment(s) matches Some(p) ==> p.0
            == Kind::Multi),
        s.len() >= 2 && s[0] == '/' && s[1] == '/' ==> (spec_comment(s) matches Some(p) ==> p.0
            == Kind::Single),
{
}

} // verus!
