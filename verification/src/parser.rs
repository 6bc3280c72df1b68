//! The three-state front-matter automaton: one transition per document line,
//! from `Ready` through `InHeader` to `InBody`.

use vstd::prelude::*;
use crate::draft::{
    apply_field, empty_draft, recognized_field, apply_header_field, is_recognized_field,
    DraftView, PostDraft,
};
use crate::text::{find_char, first_idx, lemma_first_idx_absent, trimmed};

verus! {

/// A non-empty line made only of `-` characters: the line that opens the
/// header.
pub open spec fn is_delim_line(s: Seq<char>) -> bool {
    s.len() > 0 && (forall|i: int| 0 <= i < s.len() ==> s[i] == '-')
}

pub fn is_delimiter(line: &str) -> (r: bool)
    ensures
        r == is_delim_line(line@),
{
    let n = line.unicode_len();
    if n == 0 {
        return false;
    }
    let mut i: usize = 0;
    while i < n
        invariant
            i <= n,
            n == line@.len(),
            forall|j: int| 0 <= j < i ==> line@[j] == '-',
        decreases n - i,
    {
        if line.get_char(i) != '-' {
            return false;
        }
        i += 1;
    }
    true
}

/// Whether a header line carries a `field: value` pair.
pub open spec fn has_separator(line: Seq<char>) -> bool {
    first_idx(line, ':') < line.len()
}

/// The field name of a header line: everything before the first `:`.
pub open spec fn header_field(line: Seq<char>) -> Seq<char> {
    line.subrange(0, first_idx(line, ':'))
}

/// The raw value of a header line: everything after the first `:`.
pub open spec fn header_value(line: Seq<char>) -> Seq<char>
    recommends
        has_separator(line),
{
    line.subrange(first_idx(line, ':') + 1, line.len() as int)
}

/// A body line joined onto the body so far: a newline between lines, none
/// before the first.
pub open spec fn appended_body(body: Seq<char>, line: Seq<char>) -> Seq<char> {
    if body.len() == 0 {
        line
    } else {
        body + seq!['\n'] + line
    }
}

/// The model of the automaton's position in a document.
pub ghost enum StateView {
    Ready,
    InHeader(DraftView),
    InBody(DraftView),
}

/// The automaton's position in a document: before the header, inside it, or
/// inside the body. The draft under construction is threaded through by
/// value.
pub enum ParserState {
    Ready,
    InHeader(PostDraft),
    InBody(PostDraft),
}

impl View for ParserState {
    type V = StateView;

    open spec fn view(&self) -> StateView {
        match self {
            ParserState::Ready => StateView::Ready,
            ParserState::InHeader(d) => StateView::InHeader(d@),
            ParserState::InBody(d) => StateView::InBody(d@),
        }
    }
}

/// One transition of the automaton. In `Ready` only a delimiter line moves it
/// on, opening a fresh draft; in `InHeader` a `field: value` line sets a field
/// and the first line without a `:` closes the header and is discarded; in
/// `InBody` every line is appended to the body.
pub open spec fn step_spec(st: StateView, line: Seq<char>) -> StateView {
    match st {
        StateView::Ready => {
            if is_delim_line(line) {
                StateView::InHeader(empty_draft())
            } else {
                StateView::Ready
            }
        },
        StateView::InHeader(d) => {
            if has_separator(line) {
                StateView::InHeader(apply_field(d, header_field(line), header_value(line)))
            } else {
                StateView::InBody(d)
            }
        },
        StateView::InBody(d) => StateView::InBody(
            (DraftView { body: appended_body(d.body, line), ..d }),
        ),
    }
}

/// The field name a step passes over: set exactly when a header line names a
/// field the draft does not recognize.
pub open spec fn ignored_field_of(st: StateView, line: Seq<char>) -> Option<Seq<char>> {
    match st {
        StateView::InHeader(_) => {
            if has_separator(line) && !recognized_field(header_field(line)) {
                Some(header_field(line))
            } else {
                None
            }
        },
        _ => None,
    }
}

/// Feeds one line to the automaton. Besides the next state it reports the
/// field name of a header line that was ignored, for the caller to warn
/// about.
pub fn step(state: ParserState, line: &str) -> (r: (ParserState, Option<String>))
    ensures
        r.0@ == step_spec(state@, line@),
        r.1.deep_view() == ignored_field_of(state@, line@),
{
    match state {
        ParserState::Ready => {
            if is_delimiter(line) {
                (ParserState::InHeader(PostDraft::new()), None)
            } else {
                (ParserState::Ready, None)
            }
        },
        ParserState::InHeader(d) => {
            match find_char(line, ':') {
                Some(j) => {
                    let field = line.substring_char(0, j);
                    let n = line.unicode_len();
                    let value = line.substring_char(j + 1, n);
                    let warn = if is_recognized_field(field) {
                        None
                    } else {
                        Some(field.to_owned())
                    };
                    (ParserState::InHeader(apply_header_field(d, field, value)), warn)
                },
                None => (ParserState::InBody(d), None),
            }
        },
        ParserState::InBody(mut d) => {
            if d.body.as_str().is_empty() {
                d.body = line.to_owned();
            } else {
                d.body.append("\n");
                d.body.append(line);
                proof {
                    reveal_strlit("\n");
                    assert("\n"@ =~= seq!['\n']);
                }
            }
            (ParserState::InBody(d), None)
        },
    }
}

/// The automaton run over a whole sequence of lines.
pub open spec fn fold_steps(st: StateView, lines: Seq<Seq<char>>) -> StateView
    decreases lines.len(),
{
    if lines.len() == 0 {
        st
    } else {
        fold_steps(step_spec(st, lines[0]), lines.drop_first())
    }
}

/// Runs the automaton over a document given as its lines, from `Ready`.
/// Warnings about ignored fields are not collected here; feed lines one at a
/// time through `step` to observe them.
pub fn parse_lines(lines: &Vec<String>) -> (r: ParserState)
    ensures
        r@ == fold_steps(StateView::Ready, lines.deep_view()),
{
    let mut st = ParserState::Ready;
    let mut i: usize = 0;
    proof {
        assert(lines.deep_view().skip(0) =~~= lines.deep_view());
    }
    while i < lines.len()
        invariant
            i <= lines.len(),
            fold_steps(StateView::Ready, lines.deep_view()) == fold_steps(
                st@,
                lines.deep_view().skip(i as int),
            ),
        decreases lines.len() - i,
    {
        let ghost pre = lines.deep_view().skip(i as int);
        let (next, _warn) = step(st, lines[i].as_str());
        st = next;
        i += 1;
        proof {
            assert(pre[0] == lines.deep_view()[i - 1]);
            assert(pre.drop_first() =~~= lines.deep_view().skip(i as int));
        }
    }
    proof {
        assert(lines.deep_view().skip(lines.len() as int) =~~= Seq::<Seq<char>>::empty());
    }
    st
}

/// Why a document failed to parse.
#[derive(Clone, Copy, PartialEq, Eq, Debug)]
pub enum ParseError {
    /// No delimiter line was found: the header never opened.
    MissingDelimiter,
    /// The header was opened but never closed before the document ended.
    UnterminatedHeader,
}

/// The end of the document: only a parse that reached the body yields a
/// completed draft; any other final state reports the document as malformed.
pub fn finish(state: ParserState) -> (r: Result<PostDraft, ParseError>)
    ensures
        state@ is Ready ==> r == Err::<PostDraft, ParseError>(ParseError::MissingDelimiter),
        state@ is InHeader ==> r == Err::<PostDraft, ParseError>(ParseError::UnterminatedHeader),
        state@ is InBody ==> (r matches Ok(d) && d@ == state@->InBody_0),
{
    match state {
        ParserState::Ready => Err(ParseError::MissingDelimiter),
        ParserState::InHeader(_) => Err(ParseError::UnterminatedHeader),
        ParserState::InBody(d) => Ok(d),
    }
}

/// Body text accumulated from `body` over further lines, a newline between
/// lines.
pub open spec fn join_from(body: Seq<char>, lines: Seq<Seq<char>>) -> Seq<char>
    decreases lines.len(),
{
    if lines.len() == 0 {
        body
    } else {
        join_from(appended_body(body, lines[0]), lines.drop_first())
    }
}

/// Lines joined by single newlines, with no leading or trailing newline.
pub open spec fn joined_lines(lines: Seq<Seq<char>>) -> Seq<char> {
    join_from(Seq::<char>::empty(), lines)
}

/// Once in the body state, the rest of the document only grows the body; all
/// other fields of the draft stay as they are.
pub proof fn lemma_fold_body(d: DraftView, lines: Seq<Seq<char>>)
    ensures
        fold_steps(StateView::InBody(d), lines) == StateView::InBody(
            (DraftView { body: join_from(d.body, lines), ..d }),
        ),
    decreases lines.len(),
{
    if lines.len() == 0 {
        assert((DraftView { body: join_from(d.body, lines), ..d }) == d);
    } else {
        let d2 = DraftView { body: appended_body(d.body, lines[0]), ..d };
        lemma_fold_body(d2, lines.drop_first());
        assert((DraftView { body: join_from(d2.body, lines.drop_first()), ..d2 })
            == (DraftView { body: join_from(d.body, lines), ..d }));
    }
}

/// A document with no delimiter line leaves the automaton in `Ready`: the
/// body state is never reached, so the parse reports the document malformed
/// and nothing is handed on for publication.
pub proof fn lemma_no_delimiter_stays_ready(lines: Seq<Seq<char>>)
    requires
        forall|i: int| 0 <= i < lines.len() ==> !is_delim_line(lines[i]),
    ensures
        fold_steps(StateView::Ready, lines) == StateView::Ready,
        !(fold_steps(StateView::Ready, lines) is InBody),
    decreases lines.len(),
{
    if lines.len() > 0 {
        assert(!is_delim_line(lines[0]));
        assert forall|i: int| 0 <= i < lines.drop_first().len() implies !is_delim_line(
            lines.drop_first()[i],
        ) by {
            assert(!is_delim_line(lines[i + 1]));
        }
        lemma_no_delimiter_stays_ready(lines.drop_first());
    }
}

/// The draft after a run of header lines, each applied in order.
pub open spec fn fold_header(d: DraftView, headers: Seq<Seq<char>>) -> DraftView
    decreases headers.len(),
{
    if headers.len() == 0 {
        d
    } else {
        fold_header(
            apply_field(d, header_field(headers[0]), header_value(headers[0])),
            headers.drop_first(),
        )
    }
}

/// Header lines, each with a `:`, keep the automaton in the header state and
/// fold their fields into the draft one by one.
pub proof fn lemma_fold_header(d: DraftView, headers: Seq<Seq<char>>, rest: Seq<Seq<char>>)
    requires
        forall|i: int| 0 <= i < headers.len() ==> has_separator(headers[i]),
    ensures
        fold_steps(StateView::InHeader(d), headers + rest) == fold_steps(
            StateView::InHeader(fold_header(d, headers)),
            rest,
        ),
    decreases headers.len(),
{
    if headers.len() == 0 {
        assert(headers + rest =~~= rest);
    } else {
        let h = headers[0];
        assert((headers + rest)[0] == h);
        let d2 = apply_field(d, header_field(h), header_value(h));
        assert((headers + rest).drop_first() =~~= headers.drop_first() + rest);
        assert forall|i: int| 0 <= i < headers.drop_first().len() implies has_separator(
            headers.drop_first()[i],
        ) by {
            assert(has_separator(headers[i + 1]));
        }
        lemma_fold_header(d2, headers.drop_first(), rest);
    }
}

/// Header lines that never name `title` leave the title untouched.
pub proof fn lemma_fold_header_title_preserved(d: DraftView, headers: Seq<Seq<char>>)
    requires
        forall|i: int| 0 <= i < headers.len() ==> header_field(headers[i]) != "title"@,
    ensures
        fold_header(d, headers).title == d.title,
    decreases headers.len(),
{
    if headers.len() > 0 {
        let h = headers[0];
        assert(header_field(h) != "title"@);
        let d2 = apply_field(d, header_field(h), header_value(h));
        assert(d2.title == d.title);
        assert forall|i: int| 0 <= i < headers.drop_first().len() implies header_field(
            headers.drop_first()[i],
        ) != "title"@ by {
            assert(header_field(headers[i + 1]) != "title"@);
        }
        lemma_fold_header_title_preserved(d2, headers.drop_first());
    }
}

/// With exactly one `title:` line among the header lines, the folded draft's
/// title is that line's value, trimmed.
pub proof fn lemma_fold_header_title(d: DraftView, headers: Seq<Seq<char>>, k: int)
    requires
        0 <= k < headers.len(),
        header_field(headers[k]) == "title"@,
        forall|i: int| 0 <= i < headers.len() && i != k ==> header_field(headers[i]) != "title"@,
    ensures
        fold_header(d, headers).title == trimmed(header_value(headers[k])),
    decreases headers.len(),
{
    let h = headers[0];
    let d2 = apply_field(d, header_field(h), header_value(h));
    if k == 0 {
        assert(d2.title == trimmed(header_value(h)));
        assert forall|i: int| 0 <= i < headers.drop_first().len() implies header_field(
            headers.drop_first()[i],
        ) != "title"@ by {
            assert(header_field(headers[i + 1]) != "title"@);
        }
        lemma_fold_header_title_preserved(d2, headers.drop_first());
    } else {
        assert(header_field(h) != "title"@);
        assert forall|i: int|
            0 <= i < headers.drop_first().len() && i != k - 1 implies header_field(
            headers.drop_first()[i],
        ) != "title"@ by {
            assert(header_field(headers[i + 1]) != "title"@);
        }
        assert(headers.drop_first()[k - 1] == headers[k]);
        lemma_fold_header_title(d2, headers.drop_first(), k - 1);
    }
}

/// In a well-formed document — a delimiter, header lines each with a `:` and
/// exactly one of them a `title:` line, a closing line without a `:`, then
/// the body — the parse reaches the body state and the draft's title is the
/// `title:` line's value with surrounding whitespace trimmed.
pub proof fn lemma_title_from_header(
    delim: Seq<char>,
    headers: Seq<Seq<char>>,
    k: int,
    close: Seq<char>,
    body_lines: Seq<Seq<char>>,
)
    requires
        is_delim_line(delim),
        forall|i: int| 0 <= i < headers.len() ==> has_separator(headers[i]),
        forall|i: int| 0 <= i < close.len() ==> close[i] != ':',
        0 <= k < headers.len(),
        header_field(headers[k]) == "title"@,
        forall|i: int| 0 <= i < headers.len() && i != k ==> header_field(headers[i]) != "title"@,
    ensures
        fold_steps(StateView::Ready, seq![delim] + headers + seq![close] + body_lines) is InBody,
        fold_steps(
            StateView::Ready,
            seq![delim] + headers + seq![close] + body_lines,
        )->InBody_0.title == trimmed(header_value(headers[k])),
{
    let tail = seq![close] + body_lines;
    let doc = seq![delim] + headers + seq![close] + body_lines;
    assert(doc[0] == delim);
    assert(step_spec(StateView::Ready, delim) == StateView::InHeader(empty_draft()));
    assert(doc.drop_first() =~~= headers + tail);
    lemma_fold_header(empty_draft(), headers, tail);
    let dh = fold_header(empty_draft(), headers);
    lemma_fold_header_title(empty_draft(), headers, k);
    lemma_first_idx_absent(close, ':');
    assert(!has_separator(close));
    assert(tail[0] == close);
    assert(step_spec(StateView::InHeader(dh), close) == StateView::InBody(dh));
    assert(tail.drop_first() =~~= body_lines);
    lemma_fold_body(dh, body_lines);
}

/// From inside the header, the body state is reached exactly when some later
/// line has no `:` to close the header.
pub proof fn lemma_header_reaches_body_iff(d: DraftView, lines: Seq<Seq<char>>)
    ensures
        fold_steps(StateView::InHeader(d), lines) is InBody <==> exists|j: int|
            0 <= j < lines.len() && !has_separator(lines[j]),
    decreases lines.len(),
{
    if lines.len() > 0 {
        let l0 = lines[0];
        if !has_separator(l0) {
            lemma_fold_body(d, lines.drop_first());
            assert(0 <= 0 < lines.len() && !has_separator(lines[0]));
        } else {
            let d2 = apply_field(d, header_field(l0), header_value(l0));
            lemma_header_reaches_body_iff(d2, lines.drop_first());
            if fold_steps(StateView::InHeader(d), lines) is InBody {
                let j = choose|j: int|
                    0 <= j < lines.drop_first().len() && !has_separator(lines.drop_first()[j]);
                assert(lines.drop_first()[j] == lines[j + 1]);
                assert(0 <= j + 1 < lines.len() && !has_separator(lines[j + 1]));
            }
            if exists|j: int| 0 <= j < lines.len() && !has_separator(lines[j]) {
                let j = choose|j: int| 0 <= j < lines.len() && !has_separator(lines[j]);
                assert(j != 0);
                assert(lines.drop_first()[j - 1] == lines[j]);
                assert(0 <= j - 1 < lines.drop_first().len() && !has_separator(
                    lines.drop_first()[j - 1],
                ));
            }
        }
    }
}

/// A parse reaches the body state — and only then hands a draft on for
/// publication — exactly when the document holds a delimiter line followed,
/// anywhere later, by a line without a `:`: the pair that opens and closes
/// the header.
pub proof fn lemma_body_reached_iff_delimited(lines: Seq<Seq<char>>)
    ensures
        fold_steps(StateView::Ready, lines) is InBody <==> exists|i: int, j: int|
            0 <= i < j < lines.len() && is_delim_line(lines[i]) && !has_separator(lines[j]),
    decreases lines.len(),
{
    if lines.len() > 0 {
        let l0 = lines[0];
        if is_delim_line(l0) {
            lemma_header_reaches_body_iff(empty_draft(), lines.drop_first());
            if fold_steps(StateView::Ready, lines) is InBody {
                let j = choose|j: int|
                    0 <= j < lines.drop_first().len() && !has_separator(lines.drop_first()[j]);
                assert(lines.drop_first()[j] == lines[j + 1]);
                assert(0 <= 0 < j + 1 < lines.len() && is_delim_line(lines[0]) && !has_separator(
                    lines[j + 1],
                ));
            }
            if exists|i: int, j: int|
                0 <= i < j < lines.len() && is_delim_line(lines[i]) && !has_separator(lines[j]) {
                let (i, j) = choose|i: int, j: int|
                    0 <= i < j < lines.len() && is_delim_line(lines[i]) && !has_separator(
                        lines[j],
                    );
                assert(lines.drop_first()[j - 1] == lines[j]);
                assert(0 <= j - 1 < lines.drop_first().len() && !has_separator(
                    lines.drop_first()[j - 1],
                ));
            }
        } else {
            lemma_body_reached_iff_delimited(lines.drop_first());
            if fold_steps(StateView::Ready, lines) is InBody {
                let (i, j) = choose|i: int, j: int|
                    0 <= i < j < lines.drop_first().len() && is_delim_line(lines.drop_first()[i])
                        && !has_separator(lines.drop_first()[j]);
                assert(lines.drop_first()[i] == lines[i + 1]);
                assert(lines.drop_first()[j] == lines[j + 1]);
                assert(0 <= i + 1 < j + 1 < lines.len() && is_delim_line(lines[i + 1])
                    && !has_separator(lines[j + 1]));
            }
            if exists|i: int, j: int|
                0 <= i < j < lines.len() && is_delim_line(lines[i]) && !has_separator(lines[j]) {
                let (i, j) = choose|i: int, j: int|
                    0 <= i < j < lines.len() && is_delim_line(lines[i]) && !has_separator(
                        lines[j],
                    );
                assert(i != 0);
                assert(lines.drop_first()[i - 1] == lines[i]);
                assert(lines.drop_first()[j - 1] == lines[j]);
                assert(0 <= i - 1 < j - 1 < lines.drop_first().len() && is_delim_line(
                    lines.drop_first()[i - 1],
                ) && !has_separator(lines.drop_first()[j - 1]));
            }
        }
    }
}

/// Body reconstruction: a document of a delimiter line, a closing line
/// without a `:`, and then the body lines yields exactly those lines joined
/// with single newlines — no leading or trailing blank line.
pub proof fn lemma_body_reconstruction(
    delim: Seq<char>,
    close: Seq<char>,
    body_lines: Seq<Seq<char>>,
)
    requires
        is_delim_line(delim),
        forall|i: int| 0 <= i < close.len() ==> close[i] != ':',
    ensures
        fold_steps(StateView::Ready, seq![delim, close] + body_lines) == StateView::InBody(
            (DraftView { body: joined_lines(body_lines), ..empty_draft() }),
        ),
{
    let doc = seq![delim, close] + body_lines;
    assert(doc[0] == delim);
    assert(step_spec(StateView::Ready, delim) == StateView::InHeader(empty_draft()));
    assert(fold_steps(StateView::Ready, doc) == fold_steps(
        StateView::InHeader(empty_draft()),
        doc.drop_first(),
    ));
    lemma_first_idx_absent(close, ':');
    assert(!has_separator(close));
    assert(doc.drop_first()[0] == close);
    assert(step_spec(StateView::InHeader(empty_draft()), close) == StateView::InBody(
        empty_draft(),
    ));
    assert(doc.drop_first().drop_first() =~~= body_lines);
    assert(fold_steps(StateView::InHeader(empty_draft()), doc.drop_first()) == fold_steps(
        StateView::InBody(empty_draft()),
        body_lines,
    ));
    lemma_fold_body(empty_draft(), body_lines);
    assert(join_from(empty_draft().body, body_lines) == joined_lines(body_lines));
}

} // verus!
