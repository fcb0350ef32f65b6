//! Markdown to plain text: the event stream of a document is folded into the
//! text that the "Select Text" view shows and copies.

use vstd::prelude::*;

use crate::events::{
    markdown_events, parse_events, parser_options, viewer_options, EndTag, MdEvent, StartTag,
};
use crate::text::{
    char_rows, is_white_space, lemma_trim_end,     decimal, join, push_chars, push_decimal, push_joined, push_str, string_from_chars, trim,
    trim_end, trim_end_in_place, trimmed,
};

verus! {

/// What has been written so far while reading a document's events.
pub ghost struct PlainState {
    /// The text written outside table cells.
    pub output: Seq<char>,
    /// The number of the next item of the current ordered list, if any.
    pub list_index: Option<int>,
    /// Inside front matter, which writes nothing.
    pub in_metadata: bool,
    /// The trimmed cells of the table row being read.
    pub row: Seq<Seq<char>>,
    /// The text of the table cell being read, if any.
    pub cell: Option<Seq<char>>,
}

/// The state before the first event.
pub open spec fn initial_state() -> PlainState {
    PlainState {
        output: Seq::empty(),
        list_index: None,
        in_metadata: false,
        row: Seq::empty(),
        cell: None,
    }
}

pub open spec fn ends_with_newline(s: Seq<char>) -> bool {
    s.len() > 0 && s.last() == '\n'
}

/// `s` ending in a line break: `s` itself if it already does.
pub open spec fn end_line(s: Seq<char>) -> Seq<char> {
    if ends_with_newline(s) {
        s
    } else {
        s.push('\n')
    }
}

/// The separator between the cells of a table row.
pub open spec fn cell_separator() -> Seq<char> {
    seq![' ', '|', ' ']
}

/// The marker in front of an item of an ordered list numbered `n`.
pub open spec fn numbered_marker(n: int) -> Seq<char> {
    seq![' ', ' '] + decimal(n as nat) + seq!['.', ' ']
}

/// The marker in front of an item of a bullet list.
pub open spec fn bullet_marker() -> Seq<char> {
    seq![' ', ' ', '•', ' ']
}

/// `s` written to the open table cell if there is one, else to the output.
pub open spec fn write_inline(st: PlainState, in_cell: Seq<char>, outside: Seq<char>) -> PlainState {
    match st.cell {
        Some(c) => PlainState { cell: Some(c + in_cell), ..st },
        None => PlainState { output: st.output + outside, ..st },
    }
}

/// The effect of an event outside front matter.
pub open spec fn content_step(st: PlainState, e: MdEvent) -> PlainState {
    match e {
        MdEvent::Start(StartTag::TableCell) => PlainState { cell: Some(Seq::empty()), ..st },
        MdEvent::End(EndTag::TableCell) => {
            let c = match st.cell {
                Some(c) => c,
                None => Seq::empty(),
            };
            PlainState { row: st.row.push(trim(c)), cell: None, ..st }
        },
        MdEvent::End(EndTag::TableHead) | MdEvent::End(EndTag::TableRow) => PlainState {
            output: st.output + join(st.row, cell_separator()) + seq!['\n'],
            row: Seq::empty(),
            ..st
        },
        MdEvent::End(EndTag::Table) => PlainState { output: st.output.push('\n'), ..st },
        MdEvent::Text(t) => write_inline(st, t@, t@),
        MdEvent::Code(t) => write_inline(st, t@, t@),
        MdEvent::SoftBreak => write_inline(st, seq![' '], seq![' ']),
        MdEvent::HardBreak => write_inline(st, seq![' '], seq!['\n']),
        MdEvent::Start(StartTag::Heading) => PlainState {
            output: if st.output.len() > 0 { end_line(st.output) } else { st.output },
            ..st
        },
        MdEvent::End(EndTag::Heading) => PlainState { output: st.output.push('\n'), ..st },
        MdEvent::End(EndTag::Paragraph) => PlainState {
            output: st.output + seq!['\n', '\n'],
            ..st
        },
        MdEvent::End(EndTag::CodeBlock) => PlainState {
            output: end_line(st.output).push('\n'),
            ..st
        },
        MdEvent::Start(StartTag::List(first)) => PlainState {
            list_index: match first {
                Some(n) => Some(n as int),
                None => None,
            },
            ..st
        },
        MdEvent::End(EndTag::List) => PlainState {
            list_index: None,
            output: end_line(st.output),
            ..st
        },
        MdEvent::Start(StartTag::Item) => match st.list_index {
            Some(n) => PlainState {
                output: st.output + numbered_marker(n),
                list_index: Some(n + 1),
                ..st
            },
            None => PlainState { output: st.output + bullet_marker(), ..st },
        },
        MdEvent::End(EndTag::Item) => PlainState { output: end_line(st.output), ..st },
        _ => st,
    }
}

/// The effect of one event: front matter is entered and left, and hides
/// every event inside it.
pub open spec fn step(st: PlainState, e: MdEvent) -> PlainState {
    match e {
        MdEvent::Start(StartTag::MetadataBlock) => PlainState { in_metadata: true, ..st },
        MdEvent::End(EndTag::MetadataBlock) => PlainState { in_metadata: false, ..st },
        _ => if st.in_metadata {
            st
        } else {
            content_step(st, e)
        },
    }
}

/// The state after reading `events` in order from `st`.
pub open spec fn run(st: PlainState, events: Seq<MdEvent>) -> PlainState
    decreases events.len(),
{
    if events.len() == 0 {
        st
    } else {
        step(run(st, events.drop_last()), events.last())
    }
}

/// The plain text of a document given by its events: what was written,
/// without trailing whitespace.
pub open spec fn plain_text(events: Seq<MdEvent>) -> Seq<char> {
    trim_end(run(initial_state(), events).output)
}

/// The plain text of the Markdown document `source`, read with the
/// extensions of the formatted view.
pub open spec fn markdown_plain_text(source: Seq<char>) -> Seq<char> {
    plain_text(markdown_events(source, viewer_options()))
}

/// The writer that carries out `step`.
struct PlainWriter {
    output: Vec<char>,
    list_index: Option<u128>,
    in_metadata: bool,
    row: Vec<Vec<char>>,
    cell: Option<Vec<char>>,
}

impl PlainWriter {
    spec fn state(&self) -> PlainState {
        PlainState {
            output: self.output@,
            list_index: match self.list_index {
                Some(n) => Some(n as int),
                None => None,
            },
            in_metadata: self.in_metadata,
            row: char_rows(self.row@),
            cell: match self.cell {
                Some(c) => Some(c@),
                None => None,
            },
        }
    }

    fn new() -> (w: Self)
        ensures
            w.state() == initial_state(),
    {
        let w = PlainWriter {
            output: Vec::new(),
            list_index: None,
            in_metadata: false,
            row: Vec::new(),
            cell: None,
        };
        assert(w.state().row =~= Seq::<Seq<char>>::empty());
        w
    }

    fn write_inline(&mut self, in_cell: &str, outside: &str)
        ensures
            final(self).state() == write_inline(old(self).state(), in_cell@, outside@),
            final(self).list_index == old(self).list_index,
    {
        match self.cell.take() {
            Some(mut c) => {
                push_str(&mut c, in_cell);
                self.cell = Some(c);
            },
            None => {
                push_str(&mut self.output, outside);
            },
        }
    }

    fn end_line(&mut self)
        ensures
            final(self).state() == (PlainState {
                output: end_line(old(self).state().output),
                ..old(self).state()
            }),
            final(self).list_index == old(self).list_index,
    {
        let n = self.output.len();
        if n == 0 || self.output[n - 1] != '\n' {
            self.output.push('\n');
        }
    }

    fn content_step(&mut self, e: &MdEvent)
        requires
            (old(self).list_index matches Some(n) ==> n < u128::MAX),
        ensures
            final(self).state() == content_step(old(self).state(), *e),
    {
        let ghost st = self.state();
        match e {
            MdEvent::Start(StartTag::TableCell) => {
                self.cell = Some(Vec::new());
                assert(self.state() =~= content_step(st, *e));
            },
            MdEvent::End(EndTag::TableCell) => {
                let c = match self.cell.take() {
                    Some(c) => c,
                    None => Vec::new(),
                };
                self.row.push(trimmed(&c));
                assert(self.state().row =~= content_step(st, *e).row);
            },
            MdEvent::End(EndTag::TableHead) | MdEvent::End(EndTag::TableRow) => {
                push_joined(&mut self.output, &self.row, " | ");
                self.output.push('\n');
                self.row.clear();
                proof {
                    reveal_strlit(" | ");
                    assert(" | "@ =~= cell_separator());
                }
                assert(self.state().row =~= content_step(st, *e).row);
                assert(self.state().output =~= content_step(st, *e).output);
            },
            MdEvent::End(EndTag::Table) => {
                self.output.push('\n');
            },
            MdEvent::Text(t) => {
                self.write_inline(t.as_str(), t.as_str());
            },
            MdEvent::Code(t) => {
                self.write_inline(t.as_str(), t.as_str());
            },
            MdEvent::SoftBreak => {
                self.write_inline(" ", " ");
                proof {
                    reveal_strlit(" ");
                    assert(" "@ =~= seq![' ']);
                }
            },
            MdEvent::HardBreak => {
                self.write_inline(" ", "\n");
                proof {
                    reveal_strlit(" ");
                    reveal_strlit("\n");
                    assert(" "@ =~= seq![' ']);
                    assert("\n"@ =~= seq!['\n']);
                }
            },
            MdEvent::Start(StartTag::Heading) => {
                if self.output.len() > 0 {
                    self.end_line();
                }
            },
            MdEvent::End(EndTag::Heading) => {
                self.output.push('\n');
            },
            MdEvent::End(EndTag::Paragraph) => {
                self.output.push('\n');
                self.output.push('\n');
                assert(self.state().output =~= content_step(st, *e).output);
            },
            MdEvent::End(EndTag::CodeBlock) => {
                self.end_line();
                self.output.push('\n');
            },
            MdEvent::Start(StartTag::List(first)) => {
                self.list_index = match first {
                    Some(n) => Some(*n as u128),
                    None => None,
                };
            },
            MdEvent::End(EndTag::List) => {
                self.list_index = None;
                self.end_line();
            },
            MdEvent::Start(StartTag::Item) => {
                match self.list_index {
                    Some(n) => {
                        self.output.push(' ');
                        self.output.push(' ');
                        push_decimal(&mut self.output, n);
                        self.output.push('.');
                        self.output.push(' ');
                        self.list_index = Some(n + 1);
                        assert(self.state().output =~= content_step(st, *e).output);
                    },
                    None => {
                        self.output.push(' ');
                        self.output.push(' ');
                        self.output.push('•');
                        self.output.push(' ');
                        assert(self.state().output =~= content_step(st, *e).output);
                    },
                }
            },
            MdEvent::End(EndTag::Item) => {
                self.end_line();
            },
            _ => {},
        }
    }

    fn step(&mut self, e: &MdEvent)
        requires
            (old(self).list_index matches Some(n) ==> n < u128::MAX),
        ensures
            final(self).state() == step(old(self).state(), *e),
    {
        match e {
            MdEvent::Start(StartTag::MetadataBlock) => {
                self.in_metadata = true;
            },
            MdEvent::End(EndTag::MetadataBlock) => {
                self.in_metadata = false;
            },
            _ => {
                if !self.in_metadata {
                    self.content_step(e);
                }
            },
        }
    }
}

/// The plain text of a document given by its events.
pub fn plain_text_from_events(events: &Vec<MdEvent>) -> (text: String)
    ensures
        text@ == plain_text(events@),
        text@.len() > 0 ==> !is_white_space(text@.last()),
{
    let mut w = PlainWriter::new();
    let mut i: usize = 0;
    while i < events.len()
        invariant
            i <= events.len(),
            w.state() == run(initial_state(), events@.take(i as int)),
            (w.list_index matches Some(n) ==> n <= u64::MAX + i),
        decreases events.len() - i,
    {
        assert(events@.take(i + 1).drop_last() =~= events@.take(i as int));
        w.step(&events[i]);
        i = i + 1;
    }
    assert(events@.take(events.len() as int) =~= events@);
    trim_end_in_place(&mut w.output);
    proof {
        lemma_trim_end(run(initial_state(), events@).output);
    }
    string_from_chars(&w.output)
}

/// The text that the "Select Text" view shows for the Markdown document
/// `source`: the document read with the extensions of the formatted view,
/// front matter hidden, table rows as cells joined by `" | "`, list items
/// marked by bullets or numbers, and no trailing whitespace.
pub fn markdown_to_plain_text(source: &str) -> (text: String)
    ensures
        text@ == markdown_plain_text(source@),
        text@.len() > 0 ==> !is_white_space(text@.last()),
{
    let events = parse_events(source, parser_options());
    plain_text_from_events(&events)
}

/// Events that write nothing: the ends of spans and blocks the plain text
/// does not mark (emphasis, strikethrough, links, ...) and the starts of
/// paragraphs, code blocks and tables.
pub open spec fn writes_nothing(e: MdEvent) -> bool {
    ||| e == MdEvent::Other
    ||| e == MdEvent::Start(StartTag::Other)
    ||| e == MdEvent::End(EndTag::Other)
    ||| e == MdEvent::Start(StartTag::Paragraph)
    ||| e == MdEvent::Start(StartTag::CodeBlock)
    ||| e == MdEvent::Start(StartTag::Table)
    ||| e == MdEvent::Start(StartTag::TableHead)
    ||| e == MdEvent::Start(StartTag::TableRow)
}

/// The events of table cells holding the texts `cells`, in order.
pub open spec fn cell_events(cells: Seq<String>) -> Seq<MdEvent>
    decreases cells.len(),
{
    if cells.len() == 0 {
        Seq::empty()
    } else {
        cell_events(cells.drop_last()) + seq![
            MdEvent::Start(StartTag::TableCell),
            MdEvent::Text(cells.last()),
            MdEvent::End(EndTag::TableCell),
        ]
    }
}

/// The texts of `cells`, each trimmed.
pub open spec fn trimmed_cells(cells: Seq<String>) -> Seq<Seq<char>> {
    cells.map_values(|c: String| trim(c@))
}

/// The number of list items that `events` open.
pub open spec fn count_items(events: Seq<MdEvent>) -> nat
    decreases events.len(),
{
    if events.len() == 0 {
        0
    } else {
        count_items(events.drop_last()) + if events.last() == MdEvent::Start(StartTag::Item) {
            1nat
        } else {
            0nat
        }
    }
}

/// Reading a single event is taking one step.
pub proof fn lemma_run_single(st: PlainState, e: MdEvent)
    ensures
        run(st, seq![e]) == step(st, e),
{
    assert(seq![e].drop_last() =~= Seq::<MdEvent>::empty());
    assert(run(st, Seq::<MdEvent>::empty()) == st);
}

/// An event that writes nothing leaves every state unchanged.
pub proof fn lemma_writes_nothing(st: PlainState, e: MdEvent)
    requires
        writes_nothing(e),
    ensures
        step(st, e) == st,
{
}

/// Reading `a` then `b` is reading `a + b`.
pub proof fn lemma_run_append(st: PlainState, a: Seq<MdEvent>, b: Seq<MdEvent>)
    ensures
        run(st, a + b) == run(run(st, a), b),
    decreases b.len(),
{
    if b.len() == 0 {
        assert(a + b =~= a);
    } else {
        assert((a + b).drop_last() =~= a + b.drop_last());
        assert((a + b).last() == b.last());
        lemma_run_append(st, a, b.drop_last());
    }
}

proof fn lemma_inside_front_matter(st: PlainState, inner: Seq<MdEvent>)
    requires
        st.in_metadata,
        forall|i: int| 0 <= i < inner.len() ==> inner[i] != MdEvent::End(EndTag::MetadataBlock),
    ensures
        run(st, inner) == st,
    decreases inner.len(),
{
    if inner.len() > 0 {
        lemma_inside_front_matter(st, inner.drop_last());
        assert(inner.last() == inner[inner.len() - 1]);
    }
}

/// Front matter writes nothing: a metadata block, whatever it holds, leaves
/// the state as it found it.
pub proof fn lemma_front_matter_writes_nothing(st: PlainState, inner: Seq<MdEvent>)
    requires
        !st.in_metadata,
        forall|i: int| 0 <= i < inner.len() ==> inner[i] != MdEvent::End(EndTag::MetadataBlock),
    ensures
        run(
            st,
            seq![MdEvent::Start(StartTag::MetadataBlock)] + inner + seq![
                MdEvent::End(EndTag::MetadataBlock),
            ],
        ) == st,
{
    let open = seq![MdEvent::Start(StartTag::MetadataBlock)];
    let close = seq![MdEvent::End(EndTag::MetadataBlock)];
    let entered = PlainState { in_metadata: true, ..st };
    lemma_run_single(st, MdEvent::Start(StartTag::MetadataBlock));
    lemma_run_append(st, open, inner);
    lemma_inside_front_matter(entered, inner);
    lemma_run_append(st, open + inner, close);
    lemma_run_single(entered, MdEvent::End(EndTag::MetadataBlock));
}

/// Front matter is hidden: a document with a metadata block has the plain
/// text of the same document without it.
pub proof fn lemma_front_matter_hidden(
    before: Seq<MdEvent>,
    inner: Seq<MdEvent>,
    after: Seq<MdEvent>,
)
    requires
        !run(initial_state(), before).in_metadata,
        forall|i: int| 0 <= i < inner.len() ==> inner[i] != MdEvent::End(EndTag::MetadataBlock),
    ensures
        plain_text(
            before + (seq![MdEvent::Start(StartTag::MetadataBlock)] + inner + seq![
                MdEvent::End(EndTag::MetadataBlock),
            ]) + after,
        ) == plain_text(before + after),
{
    let block = seq![MdEvent::Start(StartTag::MetadataBlock)] + inner + seq![
        MdEvent::End(EndTag::MetadataBlock),
    ];
    let st = run(initial_state(), before);
    lemma_front_matter_writes_nothing(st, inner);
    lemma_run_append(initial_state(), before, block);
    lemma_run_append(initial_state(), before + block, after);
    lemma_run_append(initial_state(), before, after);
}

proof fn lemma_run_filter(st: PlainState, events: Seq<MdEvent>)
    ensures
        run(st, events.filter(|e: MdEvent| !writes_nothing(e))) == run(st, events),
    decreases events.len(),
{
    reveal_with_fuel(Seq::filter, 1);
    let keep = |e: MdEvent| !writes_nothing(e);
    if events.len() > 0 {
        let prev = events.drop_last();
        lemma_run_filter(st, prev);
        if writes_nothing(events.last()) {
            lemma_writes_nothing(run(st, prev), events.last());
            assert(events.filter(keep) == prev.filter(keep));
        } else {
            assert(events.filter(keep) == prev.filter(keep).push(events.last()));
            assert(events.filter(keep).drop_last() =~= prev.filter(keep));
        }
    } else {
        assert(events.filter(keep) =~= events);
    }
}

/// Markup that the plain text does not render leaves it unchanged: the
/// plain text of a document is that of its events without those that write
/// nothing.
pub proof fn lemma_unrendered_markup_ignored(events: Seq<MdEvent>)
    ensures
        plain_text(events.filter(|e: MdEvent| !writes_nothing(e))) == plain_text(events),
{
    lemma_run_filter(initial_state(), events);
}

proof fn lemma_run_push(st: PlainState, events: Seq<MdEvent>, e: MdEvent)
    ensures
        run(st, events.push(e)) == step(run(st, events), e),
{
    assert(events.push(e).drop_last() =~= events);
}

proof fn lemma_cells_fill_row(st: PlainState, cells: Seq<String>)
    requires
        !st.in_metadata,
        st.cell is None,
    ensures
        run(st, cell_events(cells)) == (PlainState {
            row: st.row + trimmed_cells(cells),
            ..st
        }),
    decreases cells.len(),
{
    if cells.len() == 0 {
        assert(st.row + trimmed_cells(cells) =~= st.row);
        assert(run(st, cell_events(cells)) == st);
    } else {
        let prev = cells.drop_last();
        let text = cells.last();
        let open = MdEvent::Start(StartTag::TableCell);
        let close = MdEvent::End(EndTag::TableCell);
        lemma_cells_fill_row(st, prev);
        let mid = run(st, cell_events(prev));
        let base = cell_events(prev);
        assert(cell_events(cells) =~= base.push(open).push(MdEvent::Text(text)).push(close));
        lemma_run_push(st, base, open);
        lemma_run_push(st, base.push(open), MdEvent::Text(text));
        lemma_run_push(st, base.push(open).push(MdEvent::Text(text)), close);
        let s1 = step(mid, open);
        assert(s1 == PlainState { cell: Some(Seq::<char>::empty()), ..mid });
        let s2 = step(s1, MdEvent::Text(text));
        assert(Seq::<char>::empty() + text@ =~= text@);
        assert(s2 == PlainState { cell: Some(text@), ..mid });
        let s3 = step(s2, close);
        assert(s3 == PlainState { row: mid.row.push(trim(text@)), cell: None, ..mid });
        assert(st.row + trimmed_cells(cells) =~= (st.row + trimmed_cells(prev)).push(
            trim(text@),
        ));
    }
}

/// A table row copies as its cells, each trimmed, joined by `" | "` and
/// ended by a line break.
pub proof fn lemma_table_row(st: PlainState, cells: Seq<String>)
    requires
        !st.in_metadata,
        st.cell is None,
        st.row.len() == 0,
    ensures
        run(st, cell_events(cells).push(MdEvent::End(EndTag::TableRow))) == (PlainState {
            output: st.output + join(trimmed_cells(cells), cell_separator()) + seq!['\n'],
            ..st
        }),
{
    lemma_cells_fill_row(st, cells);
    lemma_run_push(st, cell_events(cells), MdEvent::End(EndTag::TableRow));
    assert(st.row + trimmed_cells(cells) =~= trimmed_cells(cells));
    assert(cell_events(cells).len() >= 0);
    let filled = run(st, cell_events(cells));
    assert(filled.row == trimmed_cells(cells));
    assert(step(filled, MdEvent::End(EndTag::TableRow)).row =~= st.row);
}

/// Within one list, items are numbered consecutively: reading events that
/// neither open nor close a list nor touch front matter advances the number
/// of the next item by the count of items opened.
pub proof fn lemma_items_numbered_consecutively(st: PlainState, events: Seq<MdEvent>, n: int)
    requires
        !st.in_metadata,
        st.list_index == Some(n),
        forall|i: int|
            0 <= i < events.len() ==> {
                &&& !(events[i] is Start && events[i]->Start_0 is List)
                &&& events[i] != MdEvent::End(EndTag::List)
                &&& events[i] != MdEvent::Start(StartTag::MetadataBlock)
                &&& events[i] != MdEvent::End(EndTag::MetadataBlock)
            },
    ensures
        run(st, events).list_index == Some(n + count_items(events)),
        !run(st, events).in_metadata,
    decreases events.len(),
{
    if events.len() > 0 {
        lemma_items_numbered_consecutively(st, events.drop_last(), n);
        assert(events.last() == events[events.len() - 1]);
    }
}

/// Text and inline code go, unchanged, into the open table cell after what
/// it already holds, or else to the end of the output; breaks become a space
/// in a cell, and outside one a space (soft) or a line break (hard). Nothing
/// else changes.
pub proof fn lemma_inline_events(st: PlainState, t: String)
    requires
        !st.in_metadata,
    ensures
        forall|e: MdEvent|
            #![trigger step(st, e)]
            (e == MdEvent::Text(t) || e == MdEvent::Code(t)) ==> match st.cell {
                Some(c) => step(st, e).cell == Some(c + t@) && step(st, e).output == st.output,
                None => step(st, e).output == st.output + t@ && step(st, e).cell is None,
            } && step(st, e).row == st.row && step(st, e).list_index == st.list_index,
        match st.cell {
            Some(c) => {
                &&& step(st, MdEvent::SoftBreak).cell == Some(c.push(' '))
                &&& step(st, MdEvent::HardBreak).cell == Some(c.push(' '))
                &&& step(st, MdEvent::SoftBreak).output == st.output
                &&& step(st, MdEvent::HardBreak).output == st.output
            },
            None => {
                &&& step(st, MdEvent::SoftBreak).output == st.output.push(' ')
                &&& step(st, MdEvent::HardBreak).output == st.output.push('\n')
                &&& step(st, MdEvent::SoftBreak).cell is None
                &&& step(st, MdEvent::HardBreak).cell is None
            },
        },
{
    assert(seq![' '] =~= Seq::<char>::empty().push(' '));
    assert(seq!['\n'] =~= Seq::<char>::empty().push('\n'));
    match st.cell {
        Some(c) => {
            assert(c + seq![' '] =~= c.push(' '));
        },
        None => {
            assert(st.output + seq![' '] =~= st.output.push(' '));
            assert(st.output + seq!['\n'] =~= st.output.push('\n'));
        },
    }
}

/// A cell read as text, inline code and text goes into its row as the three
/// pieces together, trimmed.
pub proof fn lemma_cell_with_code(st: PlainState, a: String, b: String, c: String)
    requires
        !st.in_metadata,
        st.cell is None,
    ensures
        run(
            st,
            seq![
                MdEvent::Start(StartTag::TableCell),
                MdEvent::Text(a),
                MdEvent::Code(b),
                MdEvent::Text(c),
                MdEvent::End(EndTag::TableCell),
            ],
        ).row == st.row.push(trim(a@ + b@ + c@)),
{
    let e0 = MdEvent::Start(StartTag::TableCell);
    let events = seq![e0, MdEvent::Text(a), MdEvent::Code(b), MdEvent::Text(c), MdEvent::End(
        EndTag::TableCell,
    )];
    lemma_run_push(st, seq![e0, MdEvent::Text(a), MdEvent::Code(b), MdEvent::Text(c)], MdEvent::End(EndTag::TableCell));
    lemma_run_push(st, seq![e0, MdEvent::Text(a), MdEvent::Code(b)], MdEvent::Text(c));
    lemma_run_push(st, seq![e0, MdEvent::Text(a)], MdEvent::Code(b));
    lemma_run_push(st, seq![e0], MdEvent::Text(a));
    lemma_run_single(st, e0);
    assert(events.drop_last() =~= seq![e0, MdEvent::Text(a), MdEvent::Code(b), MdEvent::Text(c)]);
    assert(seq![e0, MdEvent::Text(a), MdEvent::Code(b), MdEvent::Text(c)] =~= seq![e0, MdEvent::Text(a), MdEvent::Code(b)].push(MdEvent::Text(c)));
    assert(seq![e0, MdEvent::Text(a), MdEvent::Code(b)] =~= seq![e0, MdEvent::Text(a)].push(MdEvent::Code(b)));
    assert(seq![e0, MdEvent::Text(a)] =~= seq![e0].push(MdEvent::Text(a)));
    assert(Seq::<char>::empty() + a@ =~= a@);
}

/// Opening a list sets the numbering of its items: from `n` for a list
/// starting at `n`, whatever list encloses it, and none (bullets) for an
/// unordered one; the text is untouched. Closing a list ends numbering,
/// so the next item of an enclosing list gets a bullet, and leaves the text
/// ending in a line break, adding one only where it is missing.
pub proof fn lemma_list_events(st: PlainState, first: Option<u64>)
    requires
        !st.in_metadata,
    ensures
        step(st, MdEvent::Start(StartTag::List(first))).list_index == match first {
            Some(n) => Some(n as int),
            None => None,
        },
        step(st, MdEvent::Start(StartTag::List(first))).output == st.output,
        step(st, MdEvent::End(EndTag::List)).list_index is None,
        st.output.len() > 0 && st.output.last() == '\n' ==> step(
            st,
            MdEvent::End(EndTag::List),
        ).output == st.output,
        !(st.output.len() > 0 && st.output.last() == '\n') ==> step(
            st,
            MdEvent::End(EndTag::List),
        ).output == st.output.push('\n'),
        step(step(st, MdEvent::End(EndTag::List)), MdEvent::Start(StartTag::Item)).output
            == step(st, MdEvent::End(EndTag::List)).output + seq![' ', ' ', '•', ' '],
{
}

/// An item of a numbered list is marked by two spaces, its number in decimal
/// and `". "`, and the next item gets the next number; an item of a bullet
/// list is marked by two spaces, a bullet and a space. Closing an item ends
/// its line unless it already ends in a line break.
pub proof fn lemma_item_events(st: PlainState)
    requires
        !st.in_metadata,
    ensures
        st.list_index matches Some(n) ==> step(st, MdEvent::Start(StartTag::Item)).output
            == st.output + seq![' ', ' '] + decimal(n as nat) + seq!['.', ' '] && step(
            st,
            MdEvent::Start(StartTag::Item),
        ).list_index == Some(n + 1),
        st.list_index is None ==> step(st, MdEvent::Start(StartTag::Item)).output == st.output
            + seq![' ', ' ', '•', ' '] && step(st, MdEvent::Start(StartTag::Item)).list_index
            is None,
        st.output.len() > 0 && st.output.last() == '\n' ==> step(
            st,
            MdEvent::End(EndTag::Item),
        ).output == st.output,
        !(st.output.len() > 0 && st.output.last() == '\n') ==> step(
            st,
            MdEvent::End(EndTag::Item),
        ).output == st.output.push('\n'),
{
}

/// A heading starts on a line of its own: the text written so far is kept
/// and, unless empty, ends in a line break, one being added only where it
/// is missing. A heading ends its line. A paragraph ends with a blank line,
/// a code block with its last line ended and a blank line, a table with a
/// line break.
pub proof fn lemma_block_events(st: PlainState)
    requires
        !st.in_metadata,
    ensures
        st.output.len() == 0 ==> step(st, MdEvent::Start(StartTag::Heading)).output
            == st.output,
        st.output.len() > 0 && st.output.last() == '\n' ==> step(
            st,
            MdEvent::Start(StartTag::Heading),
        ).output == st.output,
        st.output.len() > 0 && st.output.last() != '\n' ==> step(
            st,
            MdEvent::Start(StartTag::Heading),
        ).output == st.output.push('\n'),
        step(st, MdEvent::End(EndTag::Heading)).output == st.output.push('\n'),
        step(st, MdEvent::End(EndTag::Paragraph)).output == st.output.push('\n').push('\n'),
        step(st, MdEvent::End(EndTag::Table)).output == st.output.push('\n'),
        st.output.len() > 0 && st.output.last() == '\n' ==> step(
            st,
            MdEvent::End(EndTag::CodeBlock),
        ).output == st.output.push('\n'),
        !(st.output.len() > 0 && st.output.last() == '\n') ==> step(
            st,
            MdEvent::End(EndTag::CodeBlock),
        ).output == st.output.push('\n').push('\n'),
{
    assert(st.output + seq!['\n', '\n'] =~= st.output.push('\n').push('\n'));
}

/// A table cell opens empty; closing it adds its text, trimmed, to the row
/// (an empty text if none was opened) and closes it. The end of a header or
/// body row writes the row's cells joined by `" | "` and a line break, and
/// starts an empty row.
pub proof fn lemma_table_events(st: PlainState)
    requires
        !st.in_metadata,
    ensures
        step(st, MdEvent::Start(StartTag::TableCell)).cell == Some(Seq::<char>::empty()),
        step(st, MdEvent::Start(StartTag::TableCell)).output == st.output,
        step(st, MdEvent::End(EndTag::TableCell)).row == st.row.push(
            trim(
                match st.cell {
                    Some(c) => c,
                    None => Seq::empty(),
                },
            ),
        ),
        step(st, MdEvent::End(EndTag::TableCell)).cell is None,
        step(st, MdEvent::End(EndTag::TableCell)).output == st.output,
        step(st, MdEvent::End(EndTag::TableRow)).output == st.output + join(st.row, seq![' ', '|', ' ']) + seq!['\n'],
        step(st, MdEvent::End(EndTag::TableHead)).output == st.output + join(st.row, seq![' ', '|', ' ']) + seq!['\n'],
        step(st, MdEvent::End(EndTag::TableRow)).row.len() == 0,
        step(st, MdEvent::End(EndTag::TableHead)).row.len() == 0,
{
}

/// Inside front matter, every event but the ones that open or close it
/// leaves the state unchanged.
pub proof fn lemma_front_matter_events(st: PlainState, e: MdEvent)
    requires
        st.in_metadata,
        e != MdEvent::Start(StartTag::MetadataBlock),
        e != MdEvent::End(EndTag::MetadataBlock),
    ensures
        step(st, e) == st,
{
}

/// A document is read from a state that has written nothing, is outside
/// front matter, lists and table cells, and holds no row.
pub proof fn lemma_initial_state()
    ensures
        initial_state().output.len() == 0,
        initial_state().list_index is None,
        !initial_state().in_metadata,
        initial_state().row.len() == 0,
        initial_state().cell is None,
        forall|events: Seq<MdEvent>|
            #[trigger] plain_text(events) == trim_end(run(initial_state(), events).output),
{
}

} // verus!
