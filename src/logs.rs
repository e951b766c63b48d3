//! Layout of the multiplexed container output in foreground mode: each line
//! labelled with its container's name, padded to the longest name, and lines
//! too wide for the terminal split in two.
use crate::text::{find_char, first_index, lemma_first_index_bounds};
use vstd::prelude::*;

verus! {

/// The longest length among `names` (0 for none).
pub open spec fn max_len(names: Seq<Seq<char>>) -> nat
    decreases names.len(),
{
    if names.len() == 0 {
        0
    } else {
        let m = max_len(names.drop_last());
        if names.last().len() > m {
            names.last().len()
        } else {
            m
        }
    }
}

/// The width of the container labels: the length of the longest name among
/// the freshly started containers; `None` when none was started, where the
/// foreground mode has nothing to follow.
pub fn label_width(started: &Vec<String>) -> (r: Option<usize>)
    ensures
        started@.len() == 0 <==> r is None,
        r matches Some(w) ==> w == max_len(started@.map_values(|s: String| s@)),
{
    if started.len() == 0 {
        return None;
    }
    let ghost names = started@.map_values(|s: String| s@);
    let mut m: usize = 0;
    let mut i: usize = 0;
    while i < started.len()
        invariant
            0 <= i <= started@.len(),
            names == started@.map_values(|s: String| s@),
            m == max_len(names.subrange(0, i as int)),
        decreases started.len() - i,
    {
        assert(names.subrange(0, i + 1).drop_last() == names.subrange(0, i as int));
        let n = started[i].as_str().unicode_len();
        if n > m {
            m = n;
        }
        i = i + 1;
    }
    assert(names.subrange(0, started@.len() as int) == names);
    Some(m)
}

/// The pieces of `s` between the occurrences of `c` (empty pieces included).
pub open spec fn segments(s: Seq<char>, c: char) -> Seq<Seq<char>>
    decreases s.len(),
{
    let i = first_index(s, c);
    if 0 <= i < s.len() {
        seq![s.subrange(0, i)] + segments(s.subrange(i + 1, s.len() as int), c)
    } else {
        seq![s]
    }
}

pub open spec fn visible(piece: Seq<char>) -> Seq<Seq<char>> {
    if piece.len() > 0 {
        seq![piece]
    } else {
        Seq::empty()
    }
}

/// Where a line too wide for the terminal is split: the columns that remain
/// of `width` after the label of width `label` and a margin of 6, or 0 where
/// none remain.
pub open spec fn split_column(label: int, width: int) -> int {
    if width - label - 6 > 0 {
        width - label - 6
    } else {
        0
    }
}

/// The texts shown for one line: the line itself, or where it does not fit
/// beside the label its two pieces around the split column; empty texts are
/// not shown.
pub open spec fn line_texts(l: Seq<char>, label: int, width: int) -> Seq<Seq<char>> {
    if l.len() + label > width {
        let k = split_column(label, width);
        visible(l.subrange(0, k)) + visible(l.subrange(k, l.len() as int))
    } else {
        visible(l)
    }
}

/// The texts shown for a chunk of output, line after line.
pub open spec fn chunk_texts(lines: Seq<Seq<char>>, label: int, width: int) -> Seq<Seq<char>>
    decreases lines.len(),
{
    if lines.len() == 0 {
        Seq::empty()
    } else {
        chunk_texts(lines.drop_last(), label, width) + line_texts(lines.last(), label, width)
    }
}

/// `name` padded with spaces to `width` characters.
pub open spec fn padded(name: Seq<char>, width: int) -> Seq<char> {
    if name.len() < width {
        name + Seq::new((width - name.len()) as nat, |i: int| ' ')
    } else {
        name
    }
}

/// A line to show: the labelled text of one container.
pub struct LogLine {
    /// The container name, padded to the label width.
    pub label: String,
    /// Whether the name is shorter than the label width (shown in another
    /// colour than the longest names).
    pub short_name: bool,
    pub text: String,
}

fn pad(name: &str, width: usize) -> (r: String)
    ensures
        r@ == padded(name@, width as int),
{
    let n = name.unicode_len();
    let space = " ";
    proof {
        reveal_strlit(" ");
    }
    assert(space@ =~= seq![' ']);
    let mut out = name.to_owned();
    let mut k: usize = n;
    while k < width
        invariant
            n == name@.len(),
            n <= k <= width || (k == n && n >= width),
            space@ == seq![' '],
            out@ == name@ + Seq::new((k - n) as nat, |i: int| ' '),
        decreases width - k,
    {
        out.append(space);
        assert(out@ =~= name@ + Seq::new((k + 1 - n) as nat, |i: int| ' '));
        k = k + 1;
    }
    assert(n >= width ==> out@ =~= name@);
    out
}

fn push_visible(out: &mut Vec<String>, piece: &str)
    ensures
        final(out)@.map_values(|s: String| s@) == old(out)@.map_values(|s: String| s@) + visible(piece@),
{
    let ghost before = out@;
    if piece.unicode_len() > 0 {
        out.push(piece.to_owned());
        assert(out@.map_values(|s: String| s@) =~= before.map_values(|s: String| s@) + seq![piece@]);
    } else {
        assert(out@.map_values(|s: String| s@) =~= before.map_values(|s: String| s@) + Seq::<Seq<char>>::empty());
    }
}

/// The texts to show for one chunk of a container's output: the chunk split
/// into lines at each `\n`, each line split where it does not fit beside a
/// label of width `label` in a terminal `width` columns wide, empty texts left
/// out.
pub fn texts_of_chunk(chunk: &str, label: usize, width: usize) -> (r: Vec<String>)
    ensures
        r@.map_values(|s: String| s@) == chunk_texts(segments(chunk@, '\n'), label as int, width as int),
{
    let mut out: Vec<String> = Vec::new();
    let mut rest: String = chunk.to_owned();
    let ghost done: Seq<Seq<char>> = Seq::empty();
    let mut more = true;
    while more
        invariant
            more ==> done + segments(rest@, '\n') == segments(chunk@, '\n'),
            !more ==> done == segments(chunk@, '\n'),
            out@.map_values(|s: String| s@) == chunk_texts(done, label as int, width as int),
        decreases rest@.len() + if more { 1int } else { 0int },
    {
        let n = rest.unicode_len();
        let i = find_char(rest.as_str(), '\n');
        proof {
            lemma_first_index_bounds(rest@, '\n');
        }
        let line = rest.as_str().substring_char(0, i).to_owned();
        let ghost before = out@.map_values(|s: String| s@);
        if (line.unicode_len() as u128) + (label as u128) > width as u128 {
            let k: usize = if width > label && width - label > 6 { width - label - 6 } else { 0 };
            let ln = line.unicode_len();
            push_visible(&mut out, line.as_str().substring_char(0, k));
            push_visible(&mut out, line.as_str().substring_char(k, ln));
        } else {
            push_visible(&mut out, line.as_str());
        }
        assert(chunk_texts(done.push(line@), label as int, width as int) == chunk_texts(done, label as int, width as int)
            + line_texts(line@, label as int, width as int)) by {
            assert(done.push(line@).drop_last() == done);
        }
        proof {
            done = done.push(line@);
        }
        if i < n {
            let tail = rest.as_str().substring_char(i + 1, n).to_owned();
            assert(segments(rest@, '\n') == seq![line@] + segments(tail@, '\n'));
            assert(done + segments(tail@, '\n') =~= done.drop_last() + segments(rest@, '\n'));
            rest = tail;
        } else {
            assert(segments(rest@, '\n') == seq![rest@]);
            assert(line@ =~= rest@);
            assert(done =~= done.drop_last() + segments(rest@, '\n'));
            more = false;
        }
    }
    out
}

/// The lines to show for one chunk of output of container `container`.
pub fn log_lines(container: &str, chunk: &str, label: usize, width: usize) -> (r: Vec<LogLine>)
    ensures
        r@.len() == chunk_texts(segments(chunk@, '\n'), label as int, width as int).len(),
        forall|i: int|
            0 <= i < r@.len() ==> {
                &&& (#[trigger] r@[i]).label@ == padded(container@, label as int)
                &&& r@[i].short_name == (container@.len() < label)
                &&& r@[i].text@ == chunk_texts(segments(chunk@, '\n'), label as int, width as int)[i]
            },
{
    let texts = texts_of_chunk(chunk, label, width);
    let short = container.unicode_len() < label;
    let mut out: Vec<LogLine> = Vec::new();
    let mut i: usize = 0;
    while i < texts.len()
        invariant
            0 <= i <= texts@.len(),
            out@.len() == i,
            short == (container@.len() < label),
            forall|j: int|
                0 <= j < i ==> {
                    &&& (#[trigger] out@[j]).label@ == padded(container@, label as int)
                    &&& out@[j].short_name == short
                    &&& out@[j].text@ == texts@[j]@
                },
        decreases texts.len() - i,
    {
        out.push(LogLine { label: pad(container, label), short_name: short, text: texts[i].clone() });
        i = i + 1;
    }
    assert forall|j: int| 0 <= j < out@.len() implies out@[j].text@ == chunk_texts(
        segments(chunk@, '\n'),
        label as int,
        width as int,
    )[j] by {
        assert(texts@.map_values(|s: String| s@)[j] == texts@[j]@);
    }
    out
}

} // verus!
