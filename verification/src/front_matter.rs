//! Splitting a content file into its metadata block and its body.
//!
//! A content file is a sequence of lines. A line that is exactly `+++` is a
//! delimiter. The first two delimiters bound the metadata block; whatever
//! follows the second one is the body, later `+++` lines included.

use vstd::prelude::*;
use vstd::string::*;

verus! {

/// The delimiter token.
pub open spec fn delimiter() -> Seq<char> {
    seq!['+', '+', '+']
}

/// A line is a delimiter when it is the token and nothing else.
pub open spec fn is_delimiter(line: Seq<char>) -> bool {
    line == delimiter()
}

/// How many of `lines` are delimiters.
pub open spec fn delimiter_count(lines: Seq<Seq<char>>) -> nat
    decreases lines.len(),
{
    if lines.len() == 0 {
        0
    } else {
        delimiter_count(lines.drop_last()) + if is_delimiter(lines.last()) {
            1nat
        } else {
            0nat
        }
    }
}

/// The index of the first body line: just past the second delimiter, or the
/// number of lines where there are fewer than two delimiters.
pub open spec fn body_start(lines: Seq<Seq<char>>) -> int
    decreases lines.len(),
{
    if lines.len() == 0 {
        0
    } else if delimiter_count(lines.drop_last()) >= 2 {
        body_start(lines.drop_last())
    } else {
        lines.len() as int
    }
}

/// The lines of the metadata block: every line before the body that is not
/// itself a delimiter.
pub open spec fn metadata_lines(lines: Seq<Seq<char>>) -> Seq<Seq<char>> {
    lines.take(body_start(lines)).filter(|line: Seq<char>| !is_delimiter(line))
}

/// The lines of the body: everything after the second delimiter, untouched.
pub open spec fn body_lines(lines: Seq<Seq<char>>) -> Seq<Seq<char>> {
    lines.skip(body_start(lines))
}

/// The text of a block: each line preceded by a line feed.
pub open spec fn block_text(lines: Seq<Seq<char>>) -> Seq<char>
    decreases lines.len(),
{
    if lines.len() == 0 {
        Seq::empty()
    } else {
        block_text(lines.drop_last()) + seq!['\n'] + lines.last()
    }
}

/// The metadata text of a content file.
pub open spec fn metadata_text(lines: Seq<Seq<char>>) -> Seq<char> {
    block_text(metadata_lines(lines))
}

/// The body text of a content file.
pub open spec fn body_text(lines: Seq<Seq<char>>) -> Seq<char> {
    block_text(body_lines(lines))
}

/// The body never starts past the end, and starts at the end exactly when
/// the second delimiter is missing or is the last line.
pub proof fn lemma_body_start_bounds(lines: Seq<Seq<char>>)
    ensures
        0 <= body_start(lines) <= lines.len(),
        delimiter_count(lines) < 2 ==> body_start(lines) == lines.len(),
        delimiter_count(lines.take(body_start(lines))) == if delimiter_count(lines) < 2 {
            delimiter_count(lines)
        } else {
            2
        },
    decreases lines.len(),
{
    if lines.len() == 0 {
        assert(lines.take(0) =~= lines);
    } else {
        let front = lines.drop_last();
        lemma_body_start_bounds(front);
        if delimiter_count(front) >= 2 {
            assert(lines.take(body_start(lines)) =~= front.take(body_start(front)));
        } else {
            assert(lines.take(body_start(lines)) =~= lines);
        }
    }
}

/// What one more line does to the two blocks.
pub proof fn lemma_split_push(lines: Seq<Seq<char>>, line: Seq<char>)
    ensures
        delimiter_count(lines.push(line)) == delimiter_count(lines) + if is_delimiter(line) {
            1nat
        } else {
            0nat
        },
        delimiter_count(lines) >= 2 ==> {
            &&& metadata_lines(lines.push(line)) == metadata_lines(lines)
            &&& body_lines(lines.push(line)) == body_lines(lines).push(line)
        },
        delimiter_count(lines) < 2 ==> {
            &&& metadata_lines(lines.push(line)) == if is_delimiter(line) {
                metadata_lines(lines)
            } else {
                metadata_lines(lines).push(line)
            }
            &&& body_lines(lines.push(line)) == Seq::<Seq<char>>::empty()
        },
{
    let next = lines.push(line);
    let keep = |l: Seq<char>| !is_delimiter(l);
    assert(next.drop_last() =~= lines);
    lemma_body_start_bounds(lines);
    if delimiter_count(lines) >= 2 {
        assert(next.take(body_start(lines)) =~= lines.take(body_start(lines)));
        assert(next.skip(body_start(lines)) =~= lines.skip(body_start(lines)).push(line));
    } else {
        assert(next.take(next.len() as int) =~= next);
        assert(lines.take(lines.len() as int) =~= lines);
        lines.lemma_filter_push(line, keep);
        assert(next.skip(next.len() as int) =~= Seq::<Seq<char>>::empty());
    }
}

/// A file of one line.
pub proof fn lemma_single_line(line: Seq<char>)
    ensures
        delimiter_count(seq![line]) == if is_delimiter(line) {
            1nat
        } else {
            0nat
        },
        block_text(seq![line]) == seq!['\n'] + line,
{
    let one = seq![line];
    assert(one.drop_last() =~= Seq::<Seq<char>>::empty());
    assert(delimiter_count(one.drop_last()) == 0);
    assert(block_text(one.drop_last()) =~= Seq::<char>::empty());
    assert(block_text(one) =~= seq!['\n'] + line);
}

/// Counting delimiters goes part by part.
pub proof fn lemma_count_concat(first: Seq<Seq<char>>, second: Seq<Seq<char>>)
    ensures
        delimiter_count(first + second) == delimiter_count(first) + delimiter_count(second),
    decreases second.len(),
{
    if second.len() == 0 {
        assert(first + second =~= first);
    } else {
        assert((first + second).drop_last() =~= first + second.drop_last());
        lemma_count_concat(first, second.drop_last());
    }
}

/// There are no more delimiters than lines, and none exactly where no line
/// is one.
pub proof fn lemma_count_bounds(lines: Seq<Seq<char>>)
    ensures
        delimiter_count(lines) <= lines.len(),
        delimiter_count(lines) == 0 <==> forall|i: int|
            0 <= i < lines.len() ==> !is_delimiter(#[trigger] lines[i]),
    decreases lines.len(),
{
    if lines.len() > 0 {
        let front = lines.drop_last();
        lemma_count_bounds(front);
        if delimiter_count(lines) == 0 {
            assert forall|i: int| 0 <= i < lines.len() implies !is_delimiter(
                #[trigger] lines[i],
            ) by {
                if i < front.len() {
                    assert(front[i] == lines[i]);
                }
            }
        } else if delimiter_count(front) > 0 {
            let i = choose|i: int| 0 <= i < front.len() && is_delimiter(#[trigger] front[i]);
            assert(is_delimiter(lines[i]));
        } else {
            assert(is_delimiter(lines[lines.len() - 1]));
        }
    }
}

/// The body starts just past the line that brings the count to two.
pub proof fn lemma_body_start_is(lines: Seq<Seq<char>>, k: int)
    requires
        1 <= k <= lines.len(),
        is_delimiter(lines[k - 1]),
        delimiter_count(lines.take(k - 1)) == 1,
    ensures
        body_start(lines) == k,
    decreases lines.len() - k,
{
    let front = lines.drop_last();
    if k == lines.len() {
        assert(lines.take(k - 1) =~= front);
    } else {
        assert(front.take(k - 1) =~= lines.take(k - 1));
        assert(front =~= front.take(k - 1) + seq![lines[k - 1]] + front.skip(k));
        lemma_count_concat(front.take(k - 1), seq![lines[k - 1]]);
        lemma_count_concat(front.take(k - 1) + seq![lines[k - 1]], front.skip(k));
        lemma_single_line(lines[k - 1]);
        lemma_body_start_is(front, k);
    }
}

/// Where there are two delimiters, the line before the body is the second.
pub proof fn lemma_body_follows_second(lines: Seq<Seq<char>>)
    requires
        delimiter_count(lines) >= 2,
    ensures
        2 <= body_start(lines) <= lines.len(),
        is_delimiter(lines[body_start(lines) - 1]),
        delimiter_count(lines.take(body_start(lines) - 1)) == 1,
    decreases lines.len(),
{
    let front = lines.drop_last();
    lemma_count_bounds(lines);
    if delimiter_count(front) >= 2 {
        lemma_body_follows_second(front);
        assert(front.take(body_start(front) - 1) =~= lines.take(body_start(front) - 1));
    } else {
        assert(lines.take(lines.len() - 1) =~= front);
        lemma_count_bounds(front);
    }
}

/// A filter leaves nothing of a single line that does not pass.
proof fn lemma_filter_drops(line: Seq<char>, keep: spec_fn(Seq<char>) -> bool)
    requires
        !keep(line),
    ensures
        seq![line].filter(keep) == Seq::<Seq<char>>::empty(),
{
    let none = Seq::<Seq<char>>::empty();
    assert(none.filter(keep) =~= none) by {
        reveal(Seq::filter);
    }
    none.lemma_filter_push(line, keep);
    assert(none.push(line) =~= seq![line]);
}

/// A filter keeps a sequence whole where every line passes.
proof fn lemma_filter_keeps_all(lines: Seq<Seq<char>>, keep: spec_fn(Seq<char>) -> bool)
    requires
        forall|i: int| 0 <= i < lines.len() ==> keep(#[trigger] lines[i]),
    ensures
        lines.filter(keep) == lines,
    decreases lines.len(),
{
    reveal(Seq::filter);
    if lines.len() > 0 {
        lemma_filter_keeps_all(lines.drop_last(), keep);
        assert(lines.drop_last().push(lines.last()) =~= lines);
    }
}

/// The text of two blocks, one after the other, is the text of the first
/// followed by the text of the second.
pub proof fn lemma_block_text_concat(first: Seq<Seq<char>>, second: Seq<Seq<char>>)
    ensures
        block_text(first + second) == block_text(first) + block_text(second),
    decreases second.len(),
{
    if second.len() == 0 {
        assert(first + second =~= first);
        assert(block_text(first) + block_text(second) =~= block_text(first));
    } else {
        assert((first + second).drop_last() =~= first + second.drop_last());
        lemma_block_text_concat(first, second.drop_last());
        assert(block_text(first + second) =~= block_text(first) + block_text(second));
    }
}

/// The lines of a content file without preamble: a delimiter, the metadata
/// lines, a delimiter, the body lines.
pub open spec fn recombined(metadata: Seq<Seq<char>>, body: Seq<Seq<char>>) -> Seq<Seq<char>> {
    seq![delimiter()] + metadata + seq![delimiter()] + body
}

/// A delimiter as it stands in the text of a block.
pub open spec fn delimiter_line() -> Seq<char> {
    seq!['\n'] + delimiter()
}

/// Splitting undoes recombining: a file put together from metadata lines,
/// none of them a delimiter, and any body lines splits into just these.
pub proof fn lemma_split_recombined(metadata: Seq<Seq<char>>, body: Seq<Seq<char>>)
    requires
        forall|i: int| 0 <= i < metadata.len() ==> !is_delimiter(#[trigger] metadata[i]),
    ensures
        body_start(recombined(metadata, body)) == metadata.len() + 2,
        metadata_lines(recombined(metadata, body)) == metadata,
        body_lines(recombined(metadata, body)) == body,
        delimiter_count(recombined(metadata, body)) == 2 + delimiter_count(body),
{
    let mark = seq![delimiter()];
    let lines = recombined(metadata, body);
    let k: int = metadata.len() as int + 2;
    let keep = |line: Seq<char>| !is_delimiter(line);
    lemma_single_line(delimiter());
    lemma_count_bounds(metadata);
    lemma_count_concat(mark, metadata);
    lemma_count_concat(mark + metadata, mark);
    lemma_count_concat(mark + metadata + mark, body);
    assert(lines.take(k - 1) =~= mark + metadata);
    lemma_body_start_is(lines, k);
    assert(lines.take(k) =~= mark + metadata + mark);
    assert(lines.skip(k) =~= body);
    Seq::filter_distributes_over_add(mark + metadata, mark, keep);
    Seq::filter_distributes_over_add(mark, metadata, keep);
    lemma_filter_keeps_all(metadata, keep);
    lemma_filter_drops(delimiter(), keep);
    assert(Seq::<Seq<char>>::empty() + metadata + Seq::<Seq<char>>::empty() =~= metadata);
}

/// Splitting and then recombining keeps the delimiter structure. For a file
/// with at least two delimiter lines (a well-formed file has exactly two),
/// the file put together again from its metadata lines and its body lines
/// has as many delimiters, splits into the same two blocks, and reads, as
/// text, as a delimiter, the metadata text, a delimiter, the body text.
/// Where the file has no preamble, it is the file itself.
pub proof fn lemma_recombine_split(lines: Seq<Seq<char>>)
    requires
        delimiter_count(lines) >= 2,
    ensures
        ({
            let again = recombined(metadata_lines(lines), body_lines(lines));
            &&& delimiter_count(again) == delimiter_count(lines)
            &&& metadata_lines(again) == metadata_lines(lines)
            &&& body_lines(again) == body_lines(lines)
            &&& block_text(again) == delimiter_line() + metadata_text(lines) + delimiter_line()
                + body_text(lines)
            &&& is_delimiter(lines[0]) ==> again == lines
        }),
{
    let keep = |line: Seq<char>| !is_delimiter(line);
    let mark = seq![delimiter()];
    let start = body_start(lines);
    let head = lines.take(start);
    let metadata = metadata_lines(lines);
    let body = body_lines(lines);
    let again = recombined(metadata, body);
    lemma_body_start_bounds(lines);
    lemma_body_follows_second(lines);
    assert forall|i: int| 0 <= i < metadata.len() implies !is_delimiter(
        #[trigger] metadata[i],
    ) by {
        head.lemma_filter_pred(keep, i);
    }
    lemma_split_recombined(metadata, body);
    // the delimiters of the file are the two of its head and those of its body
    assert(lines =~= head + body);
    lemma_count_concat(head, body);
    // the text of the recombined file
    lemma_single_line(delimiter());
    lemma_block_text_concat(mark, metadata);
    lemma_block_text_concat(mark + metadata, mark);
    lemma_block_text_concat(mark + metadata + mark, body);
    if is_delimiter(lines[0]) {
        let middle = head.subrange(1, start - 1);
        assert(head.take(start - 1) =~= lines.take(start - 1));
        assert(head.take(start - 1) =~= mark + middle);
        lemma_count_concat(mark, middle);
        lemma_count_bounds(middle);
        assert(head =~= mark + middle + mark);
        Seq::filter_distributes_over_add(mark + middle, mark, keep);
        Seq::filter_distributes_over_add(mark, middle, keep);
        lemma_filter_keeps_all(middle, keep);
        lemma_filter_drops(delimiter(), keep);
        assert(metadata =~= middle);
        assert(again =~= lines);
    }
}

/// What follows the second delimiter is body, whatever it holds: lines
/// added to a file that has its two delimiters are added to the body as
/// they are, `+++` lines too, and leave the metadata alone.
pub proof fn lemma_body_kept_verbatim(head: Seq<Seq<char>>, tail: Seq<Seq<char>>)
    requires
        delimiter_count(head) >= 2,
    ensures
        metadata_lines(head + tail) == metadata_lines(head),
        body_lines(head + tail) == body_lines(head) + tail,
        metadata_text(head + tail) == metadata_text(head),
        body_text(head + tail) == body_text(head) + block_text(tail),
    decreases tail.len(),
{
    if tail.len() == 0 {
        assert(head + tail =~= head);
        assert(body_lines(head) + tail =~= body_lines(head));
    } else {
        let front = tail.drop_last();
        lemma_body_kept_verbatim(head, front);
        assert(head + tail =~= (head + front).push(tail.last()));
        lemma_count_concat(head, front);
        lemma_split_push(head + front, tail.last());
        assert((body_lines(head) + front).push(tail.last()) =~= body_lines(head) + tail);
    }
    lemma_block_text_concat(body_lines(head), tail);
}

/// Tells whether `line` is the delimiter token.
pub fn is_delimiter_line(line: &str) -> (r: bool)
    ensures
        r == is_delimiter(line@),
{
    if line.unicode_len() != 3 {
        return false;
    }
    let r = line.get_char(0) == '+' && line.get_char(1) == '+' && line.get_char(2) == '+';
    assert(r ==> line@ =~= delimiter());
    r
}

/// Splits the lines of a content file into its metadata text and its body
/// text. Delimiter lines up to the second are consumed; every other line goes,
/// preceded by a line feed, to the metadata text while fewer than two
/// delimiters have been seen and to the body text afterwards.
pub fn parse_markdown(lines: &Vec<String>) -> (r: (String, String))
    ensures
        r.0@ == metadata_text(lines.deep_view()),
        r.1@ == body_text(lines.deep_view()),
{
    let ghost all = lines.deep_view();
    let mut counter: u8 = 0;
    let mut metadata = String::new();
    let mut md = String::new();
    let mut i: usize = 0;
    assert(all.take(0) =~= Seq::<Seq<char>>::empty());
    proof {
        lemma_body_start_bounds(all.take(0));
        assert(all.take(0).skip(0) =~= Seq::<Seq<char>>::empty());
        reveal(Seq::filter);
    }
    while i < lines.len()
        invariant
            i <= lines.len(),
            all == lines.deep_view(),
            all.len() == lines.len(),
            counter <= 2,
            counter == 2 <==> delimiter_count(all.take(i as int)) >= 2,
            counter < 2 ==> counter == delimiter_count(all.take(i as int)),
            metadata@ == metadata_text(all.take(i as int)),
            md@ == body_text(all.take(i as int)),
        decreases lines.len() - i,
    {
        let line = lines[i].as_str();
        let ghost seen = all.take(i as int);
        proof {
            reveal_strlit("\n");
            assert("\n"@ =~= seq!['\n']);
            assert(all[i as int] == line@);
            assert(all.take(i + 1) =~= seen.push(line@));
            lemma_split_push(seen, line@);
            assert(metadata_lines(seen).push(line@).drop_last() =~= metadata_lines(seen));
            assert(body_lines(seen).push(line@).drop_last() =~= body_lines(seen));
        }
        if counter < 2 {
            if is_delimiter_line(line) {
                counter += 1;
            } else {
                metadata.append("\n");
                metadata.append(line);
            }
        } else {
            md.append("\n");
            md.append(line);
        }
        i += 1;
    }
    assert(all.take(i as int) =~= all);
    (metadata, md)
}

} // verus!
