//! The line tokenizer: from source text to token lines.

use vstd::prelude::*;

verus! {

/// The pieces into which the separator cuts a string. Every occurrence of
/// the separator ends one piece and starts the next, so two separators in a
/// row, or one at either end, give an empty piece.
pub open spec fn split(s: Seq<char>, separator: char) -> Seq<Seq<char>>
    decreases s.len(),
{
    if s.len() == 0 {
        seq![Seq::empty()]
    } else {
        let pieces = split(s.drop_last(), separator);
        if s.last() == separator {
            pieces.push(Seq::empty())
        } else {
            pieces.update(pieces.len() - 1, pieces.last().push(s.last()))
        }
    }
}

/// A line without the carriage return that may end it.
pub open spec fn without_carriage_return(line: Seq<char>) -> Seq<char> {
    if line.len() > 0 && line.last() == '\r' {
        line.drop_last()
    } else {
        line
    }
}

/// The lines of a text. A line ends at a line feed, or at a carriage return
/// and a line feed; neither belongs to the line. What follows the last line
/// feed is a line of its own unless it is empty.
pub open spec fn lines_of(text: Seq<char>) -> Seq<Seq<char>> {
    let pieces = split(text, '\n');
    let ended = pieces.drop_last().map_values(|piece: Seq<char>| without_carriage_return(piece));
    if pieces.last().len() == 0 {
        ended
    } else {
        ended.push(pieces.last())
    }
}

/// The tokens of a line: the pieces into which single spaces cut it. An
/// empty line has no tokens. Nothing is trimmed and no run of spaces is
/// taken for one: a tab stays in its token, and a second space in a row
/// gives an empty token.
pub open spec fn tokens_of(line: Seq<char>) -> Seq<Seq<char>> {
    if line.len() == 0 {
        Seq::empty()
    } else {
        split(line, ' ')
    }
}

/// The token lines of a text, one for each of its lines, in order.
pub open spec fn tokenize(text: Seq<char>) -> Seq<Seq<Seq<char>>> {
    lines_of(text).map_values(|line: Seq<char>| tokens_of(line))
}

/// The pieces put together again, with the separator between each two.
pub open spec fn join(pieces: Seq<Seq<char>>, separator: char) -> Seq<char>
    decreases pieces.len(),
{
    if pieces.len() == 0 {
        Seq::empty()
    } else if pieces.len() == 1 {
        pieces[0]
    } else {
        join(pieces.drop_last(), separator).push(separator) + pieces.last()
    }
}

/// Whether no piece holds the separator.
pub open spec fn free_of(pieces: Seq<Seq<char>>, separator: char) -> bool {
    forall|i: int, j: int|
        0 <= i < pieces.len() && 0 <= j < pieces[i].len() ==> pieces[i][j] != separator
}

/// Splitting gives at least one piece.
pub proof fn lemma_split_nonempty(s: Seq<char>, separator: char)
    ensures
        split(s, separator).len() >= 1,
    decreases s.len(),
{
    if s.len() > 0 {
        lemma_split_nonempty(s.drop_last(), separator);
    }
}

/// Splitting loses nothing but the separators: no piece holds one, and the
/// pieces joined by the separator are the string that was split.
pub proof fn lemma_split_joins(s: Seq<char>, separator: char)
    ensures
        free_of(split(s, separator), separator),
        join(split(s, separator), separator) == s,
    decreases s.len(),
{
    let pieces = split(s, separator);
    if s.len() == 0 {
        assert(join(pieces, separator) =~= s);
    } else {
        let before = split(s.drop_last(), separator);
        lemma_split_nonempty(s.drop_last(), separator);
        lemma_split_joins(s.drop_last(), separator);
        if s.last() == separator {
            assert(pieces.drop_last() =~= before);
            assert(join(pieces, separator) =~= s);
        } else {
            assert forall|i: int, j: int|
                0 <= i < pieces.len() && 0 <= j < pieces[i].len() implies pieces[i][j]
                != separator by {
                if i < pieces.len() - 1 {
                    assert(pieces[i][j] == before[i][j]);
                } else if j < before.last().len() {
                    assert(pieces[i][j] == before[i][j]);
                }
            }
            assert(pieces.drop_last() =~= before.drop_last());
            if pieces.len() == 1 {
                assert(join(pieces, separator) =~= s);
            } else {
                assert(join(pieces, separator) =~= join(before, separator).push(s.last()));
                assert(join(pieces, separator) =~= s);
            }
        }
    }
}

/// Splitting is the one way to cut a string into pieces without the
/// separator: pieces that hold no separator come back when what they join
/// to is split.
pub proof fn lemma_split_of_join(pieces: Seq<Seq<char>>, separator: char)
    requires
        pieces.len() >= 1,
        free_of(pieces, separator),
    ensures
        split(join(pieces, separator), separator) == pieces,
    decreases pieces.len(), pieces.last().len(),
{
    let last = pieces.last();
    if last.len() > 0 {
        let shorter = pieces.update(pieces.len() - 1, last.drop_last());
        assert(free_of(shorter, separator)) by {
            assert forall|i: int, j: int|
                0 <= i < shorter.len() && 0 <= j < shorter[i].len() implies shorter[i][j]
                != separator by {
                assert(shorter[i][j] == pieces[i][j]);
            }
        }
        lemma_split_of_join(shorter, separator);
        assert(shorter.drop_last() =~= pieces.drop_last());
        assert(join(pieces, separator).drop_last() =~= join(shorter, separator));
        assert(join(pieces, separator).last() == last.last());
        assert(last.last() == pieces[pieces.len() - 1][last.len() - 1]);
        assert(shorter.update(shorter.len() - 1, shorter.last().push(last.last())) =~~= pieces);
    } else if pieces.len() == 1 {
        assert(split(join(pieces, separator), separator) =~~= pieces);
    } else {
        let fewer = pieces.drop_last();
        assert(free_of(fewer, separator)) by {
            assert forall|i: int, j: int|
                0 <= i < fewer.len() && 0 <= j < fewer[i].len() implies fewer[i][j]
                != separator by {
                assert(fewer[i][j] == pieces[i][j]);
            }
        }
        lemma_split_of_join(fewer, separator);
        assert(join(pieces, separator) =~= join(fewer, separator).push(separator));
        assert(join(pieces, separator).drop_last() =~= join(fewer, separator));
        assert(fewer.push(Seq::<char>::empty()) =~~= pieces);
    }
}

/// Cuts a string at every occurrence of the separator.
pub fn split_str(s: &str, separator: char) -> (pieces: Vec<String>)
    ensures
        pieces.deep_view() == split(s@, separator),
{
    let len: usize = s.unicode_len();
    let mut pieces: Vec<String> = Vec::new();
    let mut start: usize = 0;
    let mut i: usize = 0;
    assert(s@.take(0) =~= Seq::<char>::empty());
    assert(split(s@.take(0), separator) =~= pieces.deep_view().push(s@.subrange(0, 0)));
    while i < len
        invariant
            start <= i <= len,
            len == s@.len(),
            split(s@.take(i as int), separator) == pieces.deep_view().push(
                s@.subrange(start as int, i as int),
            ),
        decreases len - i,
    {
        let ghost before = pieces.deep_view();
        let ghost opened = start as int;
        proof {
            assert(s@.take(i + 1).drop_last() =~= s@.take(i as int));
            assert(s@.take(i + 1).last() == s@[i as int]);
        }
        if s.get_char(i) == separator {
            pieces.push(s.substring_char(start, i).to_owned());
            start = i + 1;
            proof {
                assert(pieces.deep_view() =~= before.push(s@.subrange(opened, i as int)));
                assert(s@.subrange(start as int, i + 1) =~= Seq::<char>::empty());
            }
        } else {
            proof {
                assert(s@.subrange(start as int, i + 1) =~= s@.subrange(
                    start as int,
                    i as int,
                ).push(s@[i as int]));
                assert(before.push(s@.subrange(start as int, i as int)).update(
                    before.len() as int,
                    s@.subrange(start as int, i + 1),
                ) =~= before.push(s@.subrange(start as int, i + 1)));
            }
        }
        i += 1;
    }
    let ghost before = pieces.deep_view();
    pieces.push(s.substring_char(start, len).to_owned());
    proof {
        assert(s@.take(len as int) =~= s@);
        assert(pieces.deep_view() =~= before.push(s@.subrange(start as int, len as int)));
    }
    pieces
}

/// Splits source text into token lines: the text into lines, and each line
/// into tokens at single spaces.
#[allow(non_snake_case)]
pub fn processFile(buf: String) -> (result: Vec<Vec<String>>)
    ensures
        result.deep_view() == tokenize(buf@),
{
    let pieces: Vec<String> = split_str(buf.as_str(), '\n');
    let count: usize = pieces.len();
    let ghost raw = split(buf@, '\n');
    let ghost ended = raw.drop_last().map_values(
        |piece: Seq<char>| without_carriage_return(piece),
    );
    proof {
        lemma_split_nonempty(buf@, '\n');
    }
    let mut result: Vec<Vec<String>> = Vec::new();
    let mut k: usize = 0;
    while k + 1 < count
        invariant
            count == pieces.len(),
            count >= 1,
            k + 1 <= count,
            raw == pieces.deep_view(),
            ended == raw.drop_last().map_values(
                |piece: Seq<char>| without_carriage_return(piece),
            ),
            result.deep_view() == ended.take(k as int).map_values(
                |line: Seq<char>| tokens_of(line),
            ),
        decreases count - k,
    {
        let piece: &str = pieces[k].as_str();
        assert(raw[k as int] == piece@);
        let len: usize = piece.unicode_len();
        let line: &str = if len > 0 && piece.get_char(len - 1) == '\r' {
            piece.substring_char(0, len - 1)
        } else {
            piece
        };
        assert(line@ =~= without_carriage_return(piece@));
        let ghost before = result.deep_view();
        result.push(tokens(line));
        proof {
            assert(result.deep_view() =~= before.push(tokens_of(line@)));
            assert(ended.take(k + 1) =~= ended.take(k as int).push(line@));
            assert(result.deep_view() =~= ended.take(k + 1).map_values(
                |line: Seq<char>| tokens_of(line),
            ));
        }
        k += 1;
    }
    assert(ended.take(k as int) =~= ended);
    let last: &str = pieces[k].as_str();
    assert(raw.last() == last@);
    if last.unicode_len() > 0 {
        let ghost before = result.deep_view();
        result.push(tokens(last));
        proof {
            assert(result.deep_view() =~= before.push(tokens_of(last@)));
            assert(result.deep_view() =~= ended.push(last@).map_values(
                |line: Seq<char>| tokens_of(line),
            ));
        }
    }
    result
}

/// The tokens of one line.
pub fn tokens(line: &str) -> (result: Vec<String>)
    ensures
        result.deep_view() == tokens_of(line@),
{
    if line.unicode_len() == 0 {
        let result: Vec<String> = Vec::new();
        assert(result.deep_view() =~= Seq::<Seq<char>>::empty());
        result
    } else {
        split_str(line, ' ')
    }
}

} // verus!
