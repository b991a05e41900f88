//! Gemtext, the markup of Gemini: from text to a sequence of symbols.

use crate::text::{
    chars_of, lines, lines_of, push_all, split_at_first, split_once, starts_with, string_of, trim,
    trimmed, views,
};
use vstd::prelude::*;
use vstd::slice::slice_subrange;

verus! {

/// One element of a gemtext document.
#[derive(Debug, Clone, PartialEq, Eq)]
pub enum Symbol {
    /// A line of plain text, as it stands.
    Text(String),
    /// A link line: the URL, and the text that names it.
    Link(String, String),
    /// An item of a list.
    List(String),
    /// A quoted line.
    Quote(String),
    /// A heading of the first level.
    Header1(String),
    /// A heading of the second level.
    Header2(String),
    /// A heading of the third level.
    Header3(String),
    /// A block of preformatted text: the alt text that follows the opening
    /// fence, and the lines of the block, each with a line feed after it.
    Codeblock(String, String),
}

/// What a `Symbol` holds, as sequences of characters.
pub enum SymbolView {
    Text(Seq<char>),
    Link(Seq<char>, Seq<char>),
    List(Seq<char>),
    Quote(Seq<char>),
    Header1(Seq<char>),
    Header2(Seq<char>),
    Header3(Seq<char>),
    Codeblock(Seq<char>, Seq<char>),
}

impl View for Symbol {
    type V = SymbolView;

    open spec fn view(&self) -> SymbolView {
        match self {
            Symbol::Text(a) => SymbolView::Text(a@),
            Symbol::Link(a, b) => SymbolView::Link(a@, b@),
            Symbol::List(a) => SymbolView::List(a@),
            Symbol::Quote(a) => SymbolView::Quote(a@),
            Symbol::Header1(a) => SymbolView::Header1(a@),
            Symbol::Header2(a) => SymbolView::Header2(a@),
            Symbol::Header3(a) => SymbolView::Header3(a@),
            Symbol::Codeblock(a, b) => SymbolView::Codeblock(a@, b@),
        }
    }
}

/// A gemtext document: its symbols in the order of the source.
#[derive(Debug, Clone, PartialEq, Eq)]
pub struct Gemtext(pub Vec<Symbol>);

impl View for Gemtext {
    type V = Seq<SymbolView>;

    open spec fn view(&self) -> Seq<SymbolView> {
        self.0@.map_values(|s: Symbol| s@)
    }
}

/// Whether the line opens or closes a block of preformatted text.
pub open spec fn is_fence(line: Seq<char>) -> bool {
    seq!['`', '`', '`'].is_prefix_of(line)
}

/// The link that a link line holds after its `=>`: the URL up to the first
/// space, and the trimmed rest as its name; the whole as the URL, without a
/// name, where there is no space.
pub open spec fn link_of(rest: Seq<char>) -> SymbolView {
    match split_at_first(trimmed(rest), seq![' ']) {
        Some((url, name)) => SymbolView::Link(url, trimmed(name)),
        None => SymbolView::Link(trimmed(rest), Seq::empty()),
    }
}

/// The symbol that a line outside a preformatted block stands for. The
/// first of these decides: `=>` a link, `*` a list item, `>` a quote, `###`,
/// `##`, `#` a heading of the third, second, first level; any other line
/// is plain text.
pub open spec fn line_symbol(line: Seq<char>) -> SymbolView {
    if seq!['=', '>'].is_prefix_of(line) {
        link_of(line.skip(2))
    } else if seq!['*'].is_prefix_of(line) {
        SymbolView::List(trimmed(line.skip(1)))
    } else if seq!['>'].is_prefix_of(line) {
        SymbolView::Quote(trimmed(line.skip(1)))
    } else if seq!['#', '#', '#'].is_prefix_of(line) {
        SymbolView::Header3(trimmed(line.skip(3)))
    } else if seq!['#', '#'].is_prefix_of(line) {
        SymbolView::Header2(trimmed(line.skip(2)))
    } else if seq!['#'].is_prefix_of(line) {
        SymbolView::Header1(trimmed(line.skip(1)))
    } else {
        SymbolView::Text(line)
    }
}

/// How many lines stand before the first fence among `lines`: all of them
/// where there is none.
pub open spec fn block_len(lines: Seq<Seq<char>>) -> nat
    decreases lines.len(),
{
    if lines.len() == 0 || is_fence(lines.first()) {
        0
    } else {
        1 + block_len(lines.drop_first())
    }
}

/// The lines one after another, each with a line feed after it.
pub open spec fn block_text(lines: Seq<Seq<char>>) -> Seq<char>
    decreases lines.len(),
{
    if lines.len() == 0 {
        Seq::empty()
    } else {
        block_text(lines.drop_last()) + lines.last() + seq!['\n']
    }
}

/// The symbols that the lines of a document stand for. A fence opens a
/// block that takes the lines up to the next fence, or all the lines that
/// are left; the closing fence belongs to the block and stands for nothing
/// itself.
pub open spec fn symbols(lines: Seq<Seq<char>>) -> Seq<SymbolView>
    decreases lines.len(),
{
    if lines.len() == 0 {
        Seq::empty()
    } else if is_fence(lines.first()) {
        let body = lines.drop_first();
        let n = block_len(body);
        let block = SymbolView::Codeblock(
            trimmed(lines.first().skip(3)),
            block_text(body.take(n as int)),
        );
        if n < body.len() {
            seq![block] + symbols(body.skip(n as int + 1))
        } else {
            seq![block]
        }
    } else {
        seq![line_symbol(lines.first())] + symbols(lines.drop_first())
    }
}

/// The symbol of a line outside a preformatted block.
pub fn symbol_of(line: &[char]) -> (r: Symbol)
    ensures
        r@ == line_symbol(line@),
{
    let n = line.len();
    let arrow: [char; 2] = ['=', '>'];
    let star: [char; 1] = ['*'];
    let angle: [char; 1] = ['>'];
    let hash3: [char; 3] = ['#', '#', '#'];
    let hash2: [char; 2] = ['#', '#'];
    let hash1: [char; 1] = ['#'];
    let space: [char; 1] = [' '];
    assert(arrow@ == seq!['=', '>']);
    assert(star@ == seq!['*']);
    assert(angle@ == seq!['>']);
    assert(hash3@ == seq!['#', '#', '#']);
    assert(hash2@ == seq!['#', '#']);
    assert(hash1@ == seq!['#']);
    assert(space@ == seq![' ']);
    if starts_with(line, arrow.as_slice()) {
        let rest = trim(slice_subrange(line, 2, n));
        match split_once(rest, space.as_slice()) {
            Some((url, name)) => Symbol::Link(string_of(url), string_of(trim(name))),
            None => Symbol::Link(string_of(rest), String::new()),
        }
    } else if starts_with(line, star.as_slice()) {
        Symbol::List(string_of(trim(slice_subrange(line, 1, n))))
    } else if starts_with(line, angle.as_slice()) {
        Symbol::Quote(string_of(trim(slice_subrange(line, 1, n))))
    } else if starts_with(line, hash3.as_slice()) {
        Symbol::Header3(string_of(trim(slice_subrange(line, 3, n))))
    } else if starts_with(line, hash2.as_slice()) {
        Symbol::Header2(string_of(trim(slice_subrange(line, 2, n))))
    } else if starts_with(line, hash1.as_slice()) {
        Symbol::Header1(string_of(trim(slice_subrange(line, 1, n))))
    } else {
        Symbol::Text(string_of(line))
    }
}

/// Counting the lines of a block may start after lines that are no fences.
proof fn lemma_block_len_step(lines: Seq<Seq<char>>, k: int)
    requires
        0 <= k < lines.len(),
        block_len(lines) >= k,
        block_len(lines) == k + block_len(lines.skip(k)),
        !is_fence(lines[k]),
    ensures
        block_len(lines) == k + 1 + block_len(lines.skip(k + 1)),
{
    assert(lines.skip(k).first() == lines[k]);
    assert(lines.skip(k).drop_first() == lines.skip(k + 1));
}

impl Gemtext {
    /// The symbols of the document.
    pub fn inner(self) -> (r: Vec<Symbol>)
        ensures
            r == self.0,
    {
        self.0
    }

    /// Reads a gemtext document, line by line.
    pub fn parse(s: &str) -> (r: Self)
        ensures
            r@ == symbols(lines_of(s@)),
    {
        let chars = chars_of(s);
        let ls = lines(chars.as_slice());
        let ghost all = views(ls@);
        let fence: [char; 3] = ['`', '`', '`'];
        assert(fence@ == seq!['`', '`', '`']);
        let mut out: Vec<Symbol> = Vec::new();
        let mut i: usize = 0;
        assert(all.skip(0) == all);
        assert(out@.map_values(|s: Symbol| s@) + symbols(all) == symbols(all));
        while i < ls.len()
            invariant
                i <= ls.len(),
                all == views(ls@),
                all == lines_of(s@),
                fence@ == seq!['`', '`', '`'],
                out@.map_values(|s: Symbol| s@) + symbols(all.skip(i as int)) == symbols(all),
            decreases ls.len() - i,
        {
            let line = ls[i];
            let ghost before = out@.map_values(|s: Symbol| s@);
            let ghost here = all.skip(i as int);
            assert(here.first() == line@);
            assert(here.drop_first() == all.skip(i + 1));
            if starts_with(line, fence.as_slice()) {
                let alt = string_of(trim(slice_subrange(line, 3, line.len())));
                let ghost body = here.drop_first();
                let mut block = String::new();
                let mut j: usize = i + 1;
                assert(body.skip(0) == body);
                assert(body.take(0) == Seq::<Seq<char>>::empty());
                while j < ls.len() && !starts_with(ls[j], fence.as_slice())
                    invariant
                        i < j <= ls.len(),
                        all == views(ls@),
                        body == all.skip(i + 1),
                        fence@ == seq!['`', '`', '`'],
                        block_len(body) == (j - i - 1) + block_len(body.skip(j - i - 1)),
                        block@ == block_text(body.take(j - i - 1)),
                    decreases ls.len() - j,
                {
                    let ghost k = j - i - 1;
                    proof {
                        assert(body[k] == ls@[j as int]@);
                        lemma_block_len_step(body, k);
                        assert(body.take(k + 1).drop_last() == body.take(k));
                        assert(body.take(k + 1).last() == body[k]);
                    }
                    push_all(&mut block, ls[j]);
                    block.push('\n');
                    assert(block@ == block_text(body.take(k)) + body[k] + seq!['\n']);
                    j += 1;
                }
                let ghost n = j - i - 1;
                proof {
                    if j < ls.len() {
                        assert(body.skip(n).first() == ls@[j as int]@);
                    } else {
                        assert(body.skip(n).len() == 0);
                    }
                    assert(block_len(body) == n);
                }
                let symbol = Symbol::Codeblock(alt, block);
                out.push(symbol);
                assert(out@.map_values(|s: Symbol| s@) == before.push(symbol@));
                if j < ls.len() {
                    assert(body.skip(n + 1) == all.skip(j + 1));
                    assert(before.push(symbol@) + symbols(all.skip(j + 1)) == before + symbols(
                        here,
                    ));
                    i = j + 1;
                } else {
                    assert(all.skip(j as int) == Seq::<Seq<char>>::empty());
                    assert(before.push(symbol@) + symbols(all.skip(j as int)) == before + symbols(
                        here,
                    ));
                    i = j;
                }
            } else {
                let symbol = symbol_of(line);
                out.push(symbol);
                assert(out@.map_values(|s: Symbol| s@) == before.push(symbol@));
                assert(before.push(symbol@) + symbols(all.skip(i + 1)) == before + symbols(here));
                i += 1;
            }
        }
        assert(symbols(all.skip(i as int)) == Seq::<SymbolView>::empty());
        assert(out@.map_values(|s: Symbol| s@) + Seq::<SymbolView>::empty() == out@.map_values(
            |s: Symbol| s@,
        ));
        Gemtext(out)
    }
}

} // verus!
