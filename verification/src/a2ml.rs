//! A2ML (Attested Markup Language) documents: the directive blocks
//! `@abstract`, `@requires` and `@refs` (each closed by `@end`), and
//! `#` sections holding `-` list items and paragraph lines.
//!
//! A document is read row by row (rows are the pieces between `\n`).
//! In order: an optional `@abstract` block, an optional `@requires`
//! block, any number of sections, an optional `@refs` block. A directive
//! whose `@end` is missing is not taken; whatever is not taken is kept,
//! rows rejoined, as the document's `raw` remainder.
use vstd::prelude::*;
use crate::catalog::{char_rows, split_chars, split_on};
use crate::text::{chars_eq, chars_of, string_from, string_from_range, trim, trim_chars};

verus! {

/// Failure modes of contract auditing.
#[derive(Debug)]
pub enum PolicyError {
    /// The A2ML source is syntactically invalid.
    ParseError(String),
    /// The contract violates a structural or logical rule.
    ValidationError(String),
    /// A required clause was not found.
    MissingClause(String),
    /// A clause value violates union standards.
    InvalidClauseValue { clause: String, expected: String, actual: String },
    /// A grievance template is malformed.
    TemplateError(String),
    /// An I/O failure, by its message.
    IoError(String),
}

/// A content block of a section: a `-` list item or a paragraph line.
#[derive(Debug, Clone)]
pub enum ContentBlock {
    Item(String),
    Paragraph(String),
}

pub enum ContentBlockView {
    Item(Seq<char>),
    Paragraph(Seq<char>),
}

impl View for ContentBlock {
    type V = ContentBlockView;

    open spec fn view(&self) -> ContentBlockView {
        match self {
            ContentBlock::Item(s) => ContentBlockView::Item(s@),
            ContentBlock::Paragraph(s) => ContentBlockView::Paragraph(s@),
        }
    }
}

/// A `#` section: its heading level (number of `#`), heading text and blocks.
#[derive(Debug, Clone)]
pub struct Section {
    pub level: usize,
    pub heading: String,
    pub blocks: Vec<ContentBlock>,
}

pub struct SectionView {
    pub level: nat,
    pub heading: Seq<char>,
    pub blocks: Seq<ContentBlockView>,
}

impl View for Section {
    type V = SectionView;

    open spec fn view(&self) -> SectionView {
        SectionView {
            level: self.level as nat,
            heading: self.heading@,
            blocks: self.blocks@.map_values(|b: ContentBlock| b@),
        }
    }
}

/// A `[text](url)` entry of the `@refs` block.
#[derive(Debug, Clone)]
pub struct Reference {
    pub text: String,
    pub url: String,
}

pub struct ReferenceView {
    pub text: Seq<char>,
    pub url: Seq<char>,
}

impl View for Reference {
    type V = ReferenceView;

    open spec fn view(&self) -> ReferenceView {
        ReferenceView { text: self.text@, url: self.url@ }
    }
}

/// The logical content of a parsed A2ML source.
#[derive(Debug, Clone)]
pub struct A2mlDocument {
    pub abstract_text: Option<String>,
    pub sections: Vec<Section>,
    pub references: Vec<Reference>,
    pub requirements: Vec<String>,
    pub raw: String,
}

pub struct A2mlDocumentView {
    pub abstract_text: Option<Seq<char>>,
    pub sections: Seq<SectionView>,
    pub references: Seq<ReferenceView>,
    pub requirements: Seq<Seq<char>>,
    pub raw: Seq<char>,
}

pub open spec fn opt_text(o: Option<String>) -> Option<Seq<char>> {
    match o {
        Some(s) => Some(s@),
        None => None,
    }
}

impl View for A2mlDocument {
    type V = A2mlDocumentView;

    open spec fn view(&self) -> A2mlDocumentView {
        A2mlDocumentView {
            abstract_text: opt_text(self.abstract_text),
            sections: self.sections@.map_values(|s: Section| s@),
            references: self.references@.map_values(|r: Reference| r@),
            requirements: self.requirements@.map_values(|s: String| s@),
            raw: self.raw@,
        }
    }
}

/// A row with nothing but white space.
pub open spec fn is_blank(l: Seq<char>) -> bool {
    trim(l).len() == 0
}

/// The first row at or after `i` that is not blank (or the row count).
pub open spec fn skip_blank(ls: Seq<Seq<char>>, i: int) -> int
    decreases ls.len() - i,
{
    if 0 <= i < ls.len() && is_blank(ls[i]) {
        skip_blank(ls, i + 1)
    } else {
        i
    }
}

/// The first row at or after `i` that reads `@end` once trimmed (or the row count).
pub open spec fn block_end(ls: Seq<Seq<char>>, i: int) -> int
    decreases ls.len() - i,
{
    if 0 <= i < ls.len() && trim(ls[i]) != "@end"@ {
        block_end(ls, i + 1)
    } else {
        i
    }
}

/// A `name` directive block starting at row `i` (blank rows before it
/// skipped): the rows of its opening line and of its `@end`.
pub open spec fn directive_at(ls: Seq<Seq<char>>, i: int, name: Seq<char>) -> Option<(int, int)> {
    let j = skip_blank(ls, i);
    if 0 <= j < ls.len() && trim(ls[j]) == name {
        let e = block_end(ls, j + 1);
        if e < ls.len() {
            Some((j, e))
        } else {
            None
        }
    } else {
        None
    }
}

/// The rows joined with `\n` between them.
pub open spec fn join_rows(rs: Seq<Seq<char>>) -> Seq<char>
    decreases rs.len(),
{
    if rs.len() == 0 {
        Seq::empty()
    } else if rs.len() == 1 {
        rs[0]
    } else {
        join_rows(rs.drop_last()).push('\n') + rs.last()
    }
}

/// The trimmed rows that are not blank, in order.
pub open spec fn nonblank_trimmed(rs: Seq<Seq<char>>) -> Seq<Seq<char>>
    decreases rs.len(),
{
    if rs.len() == 0 {
        Seq::empty()
    } else {
        let r = nonblank_trimmed(rs.drop_last());
        if is_blank(rs.last()) {
            r
        } else {
            r.push(trim(rs.last()))
        }
    }
}

/// A row that opens a section: its trimmed text starts with `#`.
pub open spec fn is_heading(l: Seq<char>) -> bool {
    trim(l).len() > 0 && trim(l)[0] == '#'
}

/// A row that ends a section's content: a heading or a directive (`@`).
pub open spec fn ends_section(l: Seq<char>) -> bool {
    trim(l).len() > 0 && (trim(l)[0] == '#' || trim(l)[0] == '@')
}

/// The first row at or after `i` that ends a section (or the row count).
pub open spec fn section_end(ls: Seq<Seq<char>>, i: int) -> int
    decreases ls.len() - i,
{
    if 0 <= i < ls.len() && !ends_section(ls[i]) {
        section_end(ls, i + 1)
    } else {
        i
    }
}

/// Number of leading `#`.
pub open spec fn hash_count(t: Seq<char>) -> nat
    decreases t.len(),
{
    if t.len() > 0 && t[0] == '#' {
        1 + hash_count(t.drop_first())
    } else {
        0
    }
}

/// The content block a row holds, if it is not blank.
pub open spec fn block_of(row: Seq<char>) -> Option<ContentBlockView> {
    let t = trim(row);
    if t.len() == 0 {
        None
    } else if t[0] == '-' {
        Some(ContentBlockView::Item(trim(t.drop_first())))
    } else {
        Some(ContentBlockView::Paragraph(t))
    }
}

pub open spec fn blocks_of(rs: Seq<Seq<char>>) -> Seq<ContentBlockView>
    decreases rs.len(),
{
    if rs.len() == 0 {
        Seq::empty()
    } else {
        let b = blocks_of(rs.drop_last());
        match block_of(rs.last()) {
            Some(x) => b.push(x),
            None => b,
        }
    }
}

/// The section with heading row `head` and content rows `body`.
pub open spec fn section_view(head: Seq<char>, body: Seq<Seq<char>>) -> SectionView {
    let t = trim(head);
    let h = hash_count(t);
    SectionView {
        level: h,
        heading: trim(t.subrange(h as int, t.len() as int)),
        blocks: blocks_of(body),
    }
}

pub proof fn lemma_skip_blank_ge(ls: Seq<Seq<char>>, i: int)
    ensures
        skip_blank(ls, i) >= i,
        0 <= i <= ls.len() ==> skip_blank(ls, i) <= ls.len(),
    decreases ls.len() - i,
{
    if 0 <= i < ls.len() && is_blank(ls[i]) {
        lemma_skip_blank_ge(ls, i + 1);
    }
}

pub proof fn lemma_section_end_ge(ls: Seq<Seq<char>>, i: int)
    ensures
        section_end(ls, i) >= i,
        0 <= i <= ls.len() ==> section_end(ls, i) <= ls.len(),
    decreases ls.len() - i,
{
    if 0 <= i < ls.len() && !ends_section(ls[i]) {
        lemma_section_end_ge(ls, i + 1);
    }
}

/// The sections starting at row `i`, and the row after the last of them.
pub open spec fn sections_from(ls: Seq<Seq<char>>, i: int) -> (Seq<SectionView>, int)
    decreases ls.len() - i,
{
    let j = skip_blank(ls, i);
    if 0 <= i && 0 <= j < ls.len() && is_heading(ls[j]) {
        let k = section_end(ls, j + 1);
        proof {
            lemma_skip_blank_ge(ls, i);
            lemma_section_end_ge(ls, j + 1);
        }
        let rest = sections_from(ls, k);
        (seq![section_view(ls[j], ls.subrange(j + 1, k))] + rest.0, rest.1)
    } else {
        (Seq::empty(), i)
    }
}

/// The first `](` at or after position `p` (or the length).
pub open spec fn link_close(t: Seq<char>, p: int) -> int
    decreases t.len() - p,
{
    if p < 0 || p + 1 >= t.len() {
        t.len() as int
    } else if t[p] == ']' && t[p + 1] == '(' {
        p
    } else {
        link_close(t, p + 1)
    }
}

/// The reference a `@refs` row holds: `[text](url)` once trimmed.
pub open spec fn link_of(row: Seq<char>) -> Option<ReferenceView> {
    let t = trim(row);
    let p = link_close(t, 1);
    if t.len() >= 4 && t[0] == '[' && t.last() == ')' && p + 2 <= t.len() - 1 {
        Some(ReferenceView { text: t.subrange(1, p), url: t.subrange(p + 2, t.len() - 1) })
    } else {
        None
    }
}

pub open spec fn refs_of(rs: Seq<Seq<char>>) -> Seq<ReferenceView>
    decreases rs.len(),
{
    if rs.len() == 0 {
        Seq::empty()
    } else {
        let r = refs_of(rs.drop_last());
        match link_of(rs.last()) {
            Some(x) => r.push(x),
            None => r,
        }
    }
}

/// The document an A2ML source denotes.
pub open spec fn document_spec(input: Seq<char>) -> A2mlDocumentView {
    let ls = split_on(input, '\n');
    let (abs, i1) = match directive_at(ls, 0, "@abstract"@) {
        Some((j, e)) => (Some(trim(join_rows(ls.subrange(j + 1, e)))), e + 1),
        None => (None, 0int),
    };
    let (reqs, i2) = match directive_at(ls, i1, "@requires"@) {
        Some((j, e)) => (nonblank_trimmed(ls.subrange(j + 1, e)), e + 1),
        None => (Seq::empty(), i1),
    };
    let (secs, i3) = sections_from(ls, i2);
    let (refs, i4) = match directive_at(ls, i3, "@refs"@) {
        Some((j, e)) => (refs_of(ls.subrange(j + 1, e)), e + 1),
        None => (Seq::empty(), i3),
    };
    A2mlDocumentView {
        abstract_text: abs,
        sections: secs,
        references: refs,
        requirements: reqs,
        raw: join_rows(ls.subrange(i4, ls.len() as int)),
    }
}

/// The optional reference of a row, by its view.
pub open spec fn opt_ref(r: Option<Reference>) -> Option<ReferenceView> {
    match r {
        Some(x) => Some(x@),
        None => None,
    }
}

/// Appends the characters of `src`.
fn push_all(out: &mut Vec<char>, src: &[char])
    ensures
        final(out)@ == old(out)@ + src@,
{
    let mut i: usize = 0;
    while i < src.len()
        invariant
            i <= src@.len(),
            out@ == old(out)@ + src@.subrange(0, i as int),
        decreases src@.len() - i,
    {
        out.push(src[i]);
        i = i + 1;
        assert(out@ =~= old(out)@ + src@.subrange(0, i as int));
    }
    assert(src@.subrange(0, src@.len() as int) =~= src@);
}

/// The characters `v[from..to]`.
pub(crate) fn chars_range(v: &[char], from: usize, to: usize) -> (r: Vec<char>)
    requires
        from <= to <= v@.len(),
    ensures
        r@ == v@.subrange(from as int, to as int),
{
    let mut r: Vec<char> = Vec::new();
    let mut i: usize = from;
    while i < to
        invariant
            from <= i <= to <= v@.len(),
            r@ == v@.subrange(from as int, i as int),
        decreases to - i,
    {
        r.push(v[i]);
        i = i + 1;
        assert(r@ =~= v@.subrange(from as int, i as int));
    }
    r
}

/// Row `k`, trimmed.
fn row_trimmed(rows: &Vec<Vec<char>>, k: usize) -> (t: Vec<char>)
    requires
        k < rows@.len(),
    ensures
        t@ == trim(char_rows(rows@)[k as int]),
{
    trim_chars(rows[k].as_slice())
}

fn skip_blank_rows(rows: &Vec<Vec<char>>, i: usize) -> (j: usize)
    requires
        i <= rows@.len(),
    ensures
        j as int == skip_blank(char_rows(rows@), i as int),
        i <= j <= rows@.len(),
{
    let ghost ls = char_rows(rows@);
    let mut j: usize = i;
    while j < rows.len() && row_trimmed(rows, j).len() == 0
        invariant
            i <= j <= rows@.len(),
            ls == char_rows(rows@),
            skip_blank(ls, i as int) == skip_blank(ls, j as int),
        decreases rows@.len() - j,
    {
        j = j + 1;
    }
    j
}

fn block_end_rows(rows: &Vec<Vec<char>>, i: usize, end: &Vec<char>) -> (e: usize)
    requires
        i <= rows@.len(),
        end@ == "@end"@,
    ensures
        e as int == block_end(char_rows(rows@), i as int),
        i <= e <= rows@.len(),
{
    let ghost ls = char_rows(rows@);
    let mut e: usize = i;
    while e < rows.len() && !chars_eq(row_trimmed(rows, e).as_slice(), end.as_slice())
        invariant
            i <= e <= rows@.len(),
            ls == char_rows(rows@),
            end@ == "@end"@,
            block_end(ls, i as int) == block_end(ls, e as int),
        decreases rows@.len() - e,
    {
        e = e + 1;
    }
    e
}

fn directive_rows(rows: &Vec<Vec<char>>, i: usize, name: &Vec<char>, end: &Vec<char>) -> (r:
    Option<(usize, usize)>)
    requires
        i <= rows@.len(),
        end@ == "@end"@,
    ensures
        match r {
            Some((j, e)) => directive_at(char_rows(rows@), i as int, name@) == Some(
                (j as int, e as int),
            ) && j < e < rows@.len(),
            None => directive_at(char_rows(rows@), i as int, name@) is None,
        },
{
    let j = skip_blank_rows(rows, i);
    if j < rows.len() && chars_eq(row_trimmed(rows, j).as_slice(), name.as_slice()) {
        let e = block_end_rows(rows, j + 1, end);
        if e < rows.len() {
            Some((j, e))
        } else {
            None
        }
    } else {
        None
    }
}

/// Rows `a..b` joined with `\n`.
fn join_rows_exec(rows: &Vec<Vec<char>>, a: usize, b: usize) -> (r: Vec<char>)
    requires
        a <= b <= rows@.len(),
    ensures
        r@ == join_rows(char_rows(rows@).subrange(a as int, b as int)),
{
    let ghost ls = char_rows(rows@);
    let mut out: Vec<char> = Vec::new();
    if a == b {
        assert(ls.subrange(a as int, b as int).len() == 0);
        return out;
    }
    push_all(&mut out, rows[a].as_slice());
    assert(out@ =~= rows@[a as int]@);
    assert(ls.subrange(a as int, a + 1).len() == 1);
    assert(ls.subrange(a as int, a + 1)[0] == ls[a as int]);
    let mut k: usize = a + 1;
    while k < b
        invariant
            a < k <= b <= rows@.len(),
            ls == char_rows(rows@),
            out@ == join_rows(ls.subrange(a as int, k as int)),
        decreases b - k,
    {
        out.push('\n');
        push_all(&mut out, rows[k].as_slice());
        assert(ls.subrange(a as int, k + 1).drop_last() =~= ls.subrange(a as int, k as int));
        assert(ls.subrange(a as int, k + 1).last() == ls[k as int]);
        k = k + 1;
    }
    out
}

/// The trimmed non-blank rows `a..b`.
fn nonblank_rows(rows: &Vec<Vec<char>>, a: usize, b: usize) -> (r: Vec<String>)
    requires
        a <= b <= rows@.len(),
    ensures
        r@.map_values(|s: String| s@) == nonblank_trimmed(char_rows(rows@).subrange(a as int, b as int)),
{
    let ghost ls = char_rows(rows@);
    let mut out: Vec<String> = Vec::new();
    let mut k: usize = a;
    assert(ls.subrange(a as int, a as int).len() == 0);
    assert(out@.map_values(|s: String| s@) =~= Seq::<Seq<char>>::empty());
    while k < b
        invariant
            a <= k <= b <= rows@.len(),
            ls == char_rows(rows@),
            out@.map_values(|s: String| s@) == nonblank_trimmed(ls.subrange(a as int, k as int)),
        decreases b - k,
    {
        let t = row_trimmed(rows, k);
        let ghost before = out@;
        if t.len() > 0 {
            out.push(string_from(t.as_slice()));
            assert(out@.map_values(|s: String| s@) =~= before.map_values(|s: String| s@).push(t@));
        }
        assert(ls.subrange(a as int, k + 1).drop_last() =~= ls.subrange(a as int, k as int));
        assert(ls.subrange(a as int, k + 1).last() == ls[k as int]);
        k = k + 1;
    }
    out
}

fn count_hashes(t: &[char]) -> (n: usize)
    ensures
        n == hash_count(t@),
        n <= t@.len(),
{
    let mut n: usize = 0;
    assert(t@.subrange(0, t@.len() as int) =~= t@);
    while n < t.len() && t[n] == '#'
        invariant
            n <= t@.len(),
            hash_count(t@) == n + hash_count(t@.subrange(n as int, t@.len() as int)),
        decreases t@.len() - n,
    {
        assert(t@.subrange(n as int, t@.len() as int).drop_first() =~= t@.subrange(
            n + 1,
            t@.len() as int,
        ));
        n = n + 1;
    }
    n
}

/// The content blocks of rows `a..b`.
fn blocks_rows(rows: &Vec<Vec<char>>, a: usize, b: usize) -> (r: Vec<ContentBlock>)
    requires
        a <= b <= rows@.len(),
    ensures
        r@.map_values(|x: ContentBlock| x@) == blocks_of(char_rows(rows@).subrange(a as int, b as int)),
{
    let ghost ls = char_rows(rows@);
    let mut out: Vec<ContentBlock> = Vec::new();
    let mut k: usize = a;
    assert(ls.subrange(a as int, a as int).len() == 0);
    assert(out@.map_values(|x: ContentBlock| x@) =~= Seq::<ContentBlockView>::empty());
    while k < b
        invariant
            a <= k <= b <= rows@.len(),
            ls == char_rows(rows@),
            out@.map_values(|x: ContentBlock| x@) == blocks_of(ls.subrange(a as int, k as int)),
        decreases b - k,
    {
        let t = row_trimmed(rows, k);
        let ghost before = out@;
        if t.len() > 0 {
            let blk = if t[0] == '-' {
                let rest = chars_range(t.as_slice(), 1, t.len());
                assert(rest@ =~= t@.drop_first());
                let it = trim_chars(rest.as_slice());
                ContentBlock::Item(string_from(it.as_slice()))
            } else {
                ContentBlock::Paragraph(string_from(t.as_slice()))
            };
            assert(block_of(ls[k as int]) == Some(blk@));
            out.push(blk);
            assert(out@.map_values(|x: ContentBlock| x@) =~= before.map_values(
                |x: ContentBlock| x@,
            ).push(blk@));
        }
        assert(ls.subrange(a as int, k + 1).drop_last() =~= ls.subrange(a as int, k as int));
        assert(ls.subrange(a as int, k + 1).last() == ls[k as int]);
        k = k + 1;
    }
    out
}

/// The section headed by row `head` whose content is rows `head + 1..end`.
fn section_at(rows: &Vec<Vec<char>>, head: usize, end: usize) -> (s: Section)
    requires
        head < end <= rows@.len(),
    ensures
        s@ == section_view(char_rows(rows@)[head as int], char_rows(rows@).subrange(
            head + 1,
            end as int,
        )),
{
    let t = row_trimmed(rows, head);
    let h = count_hashes(t.as_slice());
    let tail = chars_range(t.as_slice(), h, t.len());
    let heading = trim_chars(tail.as_slice());
    let blocks = blocks_rows(rows, head + 1, end);
    Section { level: h, heading: string_from(heading.as_slice()), blocks }
}

fn ends_section_row(rows: &Vec<Vec<char>>, k: usize) -> (r: bool)
    requires
        k < rows@.len(),
    ensures
        r == ends_section(char_rows(rows@)[k as int]),
{
    let t = row_trimmed(rows, k);
    t.len() > 0 && (t[0] == '#' || t[0] == '@')
}

fn section_end_rows(rows: &Vec<Vec<char>>, i: usize) -> (k: usize)
    requires
        i <= rows@.len(),
    ensures
        k as int == section_end(char_rows(rows@), i as int),
        i <= k <= rows@.len(),
{
    let ghost ls = char_rows(rows@);
    let mut k: usize = i;
    while k < rows.len() && !ends_section_row(rows, k)
        invariant
            i <= k <= rows@.len(),
            ls == char_rows(rows@),
            section_end(ls, i as int) == section_end(ls, k as int),
        decreases rows@.len() - k,
    {
        k = k + 1;
    }
    k
}

fn is_heading_row(rows: &Vec<Vec<char>>, k: usize) -> (r: bool)
    requires
        k < rows@.len(),
    ensures
        r == is_heading(char_rows(rows@)[k as int]),
{
    let t = row_trimmed(rows, k);
    t.len() > 0 && t[0] == '#'
}

/// The sections from row `i` on, and the row after the last of them.
fn sections_rows(rows: &Vec<Vec<char>>, i: usize) -> (r: (Vec<Section>, usize))
    requires
        i <= rows@.len(),
    ensures
        r.0@.map_values(|s: Section| s@) == sections_from(char_rows(rows@), i as int).0,
        r.1 as int == sections_from(char_rows(rows@), i as int).1,
        r.1 <= rows@.len(),
{
    let ghost ls = char_rows(rows@);
    let ghost all = sections_from(ls, i as int);
    let mut out: Vec<Section> = Vec::new();
    let mut pos: usize = i;
    assert(all.0 =~= out@.map_values(|s: Section| s@) + sections_from(ls, pos as int).0);
    loop
        invariant
            i <= pos <= rows@.len(),
            ls == char_rows(rows@),
            all == sections_from(ls, i as int),
            all.0 == out@.map_values(|s: Section| s@) + sections_from(ls, pos as int).0,
            all.1 == sections_from(ls, pos as int).1,
        decreases rows@.len() - pos,
    {
        let j = skip_blank_rows(rows, pos);
        if j < rows.len() && is_heading_row(rows, j) {
            let k = section_end_rows(rows, j + 1);
            let sec = section_at(rows, j, k);
            let ghost before = out@;
            let ghost rest = sections_from(ls, k as int);
            assert(sections_from(ls, pos as int).0 == seq![sec@] + rest.0);
            out.push(sec);
            assert(out@.map_values(|s: Section| s@) =~= before.map_values(|s: Section| s@).push(
                sec@,
            ));
            assert(all.0 =~= out@.map_values(|s: Section| s@) + rest.0);
            pos = k;
        } else {
            assert(sections_from(ls, pos as int).0.len() == 0);
            assert(all.0 =~= out@.map_values(|s: Section| s@));
            return (out, pos);
        }
    }
}

/// `link_close(t, 1)`: where the first `](` at or after position 1 starts.
fn find_link_close(t: &[char]) -> (p: usize)
    ensures
        p as int == link_close(t@, 1),
        t@.len() >= 2 ==> 1 <= p,
{
    if t.len() < 2 {
        return t.len();
    }
    let mut p: usize = 1;
    while p < t.len() - 1 && !(t[p] == ']' && t[p + 1] == '(')
        invariant
            2 <= t@.len(),
            1 <= p <= t@.len() - 1,
            link_close(t@, 1) == link_close(t@, p as int),
        decreases t@.len() - p,
    {
        p = p + 1;
    }
    if p < t.len() - 1 {
        p
    } else {
        t.len()
    }
}

/// The reference on row `k`, if it is a `[text](url)` row.
fn link_row(rows: &Vec<Vec<char>>, k: usize) -> (r: Option<Reference>)
    requires
        k < rows@.len(),
    ensures
        opt_ref(r) == link_of(char_rows(rows@)[k as int]),
{
    let t = row_trimmed(rows, k);
    if t.len() >= 4 && t[0] == '[' && t[t.len() - 1] == ')' {
        let p = find_link_close(t.as_slice());
        if p <= t.len() - 3 {
            return Some(
                Reference {
                    text: string_from_range(t.as_slice(), 1, p),
                    url: string_from_range(t.as_slice(), p + 2, t.len() - 1),
                },
            );
        }
    }
    None
}

/// The references of rows `a..b`.
fn refs_rows(rows: &Vec<Vec<char>>, a: usize, b: usize) -> (r: Vec<Reference>)
    requires
        a <= b <= rows@.len(),
    ensures
        r@.map_values(|x: Reference| x@) == refs_of(char_rows(rows@).subrange(a as int, b as int)),
{
    let ghost ls = char_rows(rows@);
    let mut out: Vec<Reference> = Vec::new();
    let mut k: usize = a;
    assert(ls.subrange(a as int, a as int).len() == 0);
    assert(out@.map_values(|x: Reference| x@) =~= Seq::<ReferenceView>::empty());
    while k < b
        invariant
            a <= k <= b <= rows@.len(),
            ls == char_rows(rows@),
            out@.map_values(|x: Reference| x@) == refs_of(ls.subrange(a as int, k as int)),
        decreases b - k,
    {
        let ghost before = out@;
        match link_row(rows, k) {
            Some(x) => {
                let ghost xv = x@;
                out.push(x);
                assert(out@.map_values(|x: Reference| x@) =~= before.map_values(
                    |x: Reference| x@,
                ).push(xv));
            },
            None => {},
        }
        assert(ls.subrange(a as int, k + 1).drop_last() =~= ls.subrange(a as int, k as int));
        assert(ls.subrange(a as int, k + 1).last() == ls[k as int]);
        k = k + 1;
    }
    out
}

/// Parses an A2ML source. Every source is accepted: what the grammar does
/// not take is kept in `raw`. So parsing never fails (and, being verified,
/// never panics): every input gives `Ok` with the document that
/// `document_spec` describes, and two parses of one input agree.
pub fn parse(input: &str) -> (r: Result<A2mlDocument, PolicyError>)
    ensures
        r matches Ok(d) && d@ == document_spec(input@),
{
    let chars = chars_of(input);
    let rows = split_chars(chars.as_slice(), '\n');
    let ghost ls = char_rows(rows@);
    assert(ls == split_on(input@, '\n'));
    let end = chars_of("@end");
    let abstract_name = chars_of("@abstract");
    let requires_name = chars_of("@requires");
    let refs_name = chars_of("@refs");
    let (abstract_text, i1) = match directive_rows(&rows, 0, &abstract_name, &end) {
        Some((j, e)) => {
            let body = join_rows_exec(&rows, j + 1, e);
            let t = trim_chars(body.as_slice());
            (Some(string_from(t.as_slice())), e + 1)
        },
        None => (None, 0),
    };
    let (requirements, i2) = match directive_rows(&rows, i1, &requires_name, &end) {
        Some((j, e)) => (nonblank_rows(&rows, j + 1, e), e + 1),
        None => (Vec::new(), i1),
    };
    let (sections, i3) = sections_rows(&rows, i2);
    let (references, i4) = match directive_rows(&rows, i3, &refs_name, &end) {
        Some((j, e)) => (refs_rows(&rows, j + 1, e), e + 1),
        None => (Vec::new(), i3),
    };
    let rest = join_rows_exec(&rows, i4, rows.len());
    let doc = A2mlDocument {
        abstract_text,
        sections,
        references,
        requirements,
        raw: string_from(rest.as_slice()),
    };
    assert(doc@.requirements =~= document_spec(input@).requirements);
    assert(doc@.references =~= document_spec(input@).references);
    Ok(doc)
}

} // verus!
