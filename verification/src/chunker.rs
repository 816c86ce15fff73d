//! Splits text into chunks of bounded size along line boundaries.

use vstd::prelude::*;
use crate::text::{
    chars_of, is_blank, lemma_lines_deep_view, lemma_trimmed_drops_last, lemma_trimmed_idempotent,
    lemma_trimmed_shape, lines_of, split_lines, string_from, trim_bounds, trimmed,
};

verus! {

/// Number of characters a chunk may reach before the next line starts a new
/// one.
pub const MAX_CHUNK_SIZE: usize = 1000;

/// The text a group of lines accumulates to: each line followed by a line feed.
pub open spec fn joined(group: Seq<Seq<char>>) -> Seq<char>
    decreases group.len(),
{
    if group.len() == 0 {
        Seq::empty()
    } else {
        joined(group.drop_last()) + group.last() + seq!['\n']
    }
}

/// The greedy grouping of `lines`, in order. A line joins the current group
/// unless the group's accumulated text and the line together exceed
/// `MAX_CHUNK_SIZE`; then it starts the next group. A line is never split, so a
/// group of one line may be of any length.
pub open spec fn line_groups(lines: Seq<Seq<char>>) -> Seq<Seq<Seq<char>>>
    decreases lines.len(),
{
    if lines.len() == 0 {
        Seq::empty()
    } else {
        let before = line_groups(lines.drop_last());
        let line = lines.last();
        if before.len() == 0 {
            seq![seq![line]]
        } else if joined(before.last()).len() + line.len() > MAX_CHUNK_SIZE {
            before.push(seq![line])
        } else {
            before.drop_last().push(before.last().push(line))
        }
    }
}

/// The chunk made of a group of lines: its accumulated text, trimmed.
pub open spec fn chunk_text(group: Seq<Seq<char>>) -> Seq<char> {
    trimmed(joined(group))
}

/// The chunks that packing `lines` yields: one per group, except that a last
/// group of white space only yields none.
pub open spec fn packed_chunks(lines: Seq<Seq<char>>) -> Seq<Seq<char>> {
    let all = line_groups(lines).map_values(|g: Seq<Seq<char>>| chunk_text(g));
    if all.len() > 0 && all.last().len() == 0 {
        all.drop_last()
    } else {
        all
    }
}

/// The chunks of `content`: those of packing its lines, or, where that yields
/// none, the whole content as it stands.
pub open spec fn chunks_of(content: Seq<char>) -> Seq<Seq<char>> {
    let packed = packed_chunks(lines_of(content));
    if packed.len() == 0 {
        seq![content]
    } else {
        packed
    }
}

/// A group that takes one more line accumulates that line and a line feed.
pub proof fn lemma_joined_push(group: Seq<Seq<char>>, line: Seq<char>)
    ensures
        joined(group.push(line)) == joined(group) + line + seq!['\n'],
        joined(seq![line]) == line + seq!['\n'],
{
    assert(group.push(line).drop_last() =~= group);
    assert(seq![line].drop_last() =~= Seq::<Seq<char>>::empty());
    assert(joined(seq![line].drop_last()) =~= Seq::<char>::empty());
    assert(joined(seq![line]) =~= line + seq!['\n']);
}

/// Whether `held + more` exceeds `MAX_CHUNK_SIZE`.
fn exceeds_limit(held: usize, more: usize) -> (b: bool)
    ensures
        b == (held + more > MAX_CHUNK_SIZE),
{
    more > MAX_CHUNK_SIZE || held > MAX_CHUNK_SIZE - more
}

/// Appends `line` and a line feed to `acc`.
fn take_line(acc: &mut Vec<char>, line: &Vec<char>)
    ensures
        final(acc)@ == old(acc)@ + line@ + seq!['\n'],
{
    let mut i: usize = 0;
    while i < line.len()
        invariant
            i <= line.len(),
            acc@ == old(acc)@ + line@.take(i as int),
        decreases line.len() - i,
    {
        acc.push(line[i]);
        i += 1;
        assert(acc@ =~= old(acc)@ + line@.take(i as int));
    }
    acc.push('\n');
    assert(acc@ =~= old(acc)@ + line@ + seq!['\n']);
}

/// Splits `content` into chunks.
pub fn chunk(content: &str) -> (chunks: Vec<String>)
    ensures
        chunks.deep_view() == chunks_of(content@),
        chunks@.len() == chunks_of(content@).len(),
        chunks@.len() >= 1,
{
    let chars = chars_of(content);
    let lines = split_lines(&chars);
    let ghost ls = lines.deep_view();
    proof {
        lemma_lines_deep_view(lines);
    }
    let mut chunks: Vec<String> = Vec::new();
    let mut acc: Vec<char> = Vec::new();
    let mut i: usize = 0;
    assert(chunks.deep_view() =~= Seq::<Seq<char>>::empty());
    while i < lines.len()
        invariant
            i <= lines.len(),
            ls == lines@.map_values(|l: Vec<char>| l@),
            i == 0 ==> acc@.len() == 0 && chunks@.len() == 0,
            i > 0 ==> line_groups(ls.take(i as int)).len() > 0,
            i > 0 ==> acc@ == joined(line_groups(ls.take(i as int)).last()),
            i > 0 ==> chunks.deep_view() == line_groups(ls.take(i as int)).drop_last().map_values(
                |g: Seq<Seq<char>>| chunk_text(g),
            ),
        decreases lines.len() - i,
    {
        let line = &lines[i];
        let ghost before = line_groups(ls.take(i as int));
        let ghost after = line_groups(ls.take(i + 1));
        proof {
            assert(ls.take(i + 1).drop_last() =~= ls.take(i as int));
            assert(ls.take(i + 1).last() == line@);
            if i == 0 {
                assert(before.len() == 0);
            }
        }
        if acc.len() > 0 && exceeds_limit(acc.len(), line.len()) {
            let (a, b) = trim_bounds(&acc);
            let text = string_from(&acc, a, b);
            let ghost old_chunks = chunks.deep_view();
            chunks.push(text);
            acc = Vec::new();
            proof {
                assert(after == before.push(seq![line@]));
                assert(after.drop_last() =~= before);
                assert(before =~= before.drop_last().push(before.last()));
                assert(chunks.deep_view() =~= old_chunks.push(text@));
                assert(chunks.deep_view() =~= after.drop_last().map_values(
                    |g: Seq<Seq<char>>| chunk_text(g),
                ));
                lemma_joined_push(before.last(), line@);
            }
        } else {
            proof {
                if before.len() == 0 {
                    assert(after == seq![seq![line@]]);
                    assert(after.drop_last() =~= Seq::<Seq<Seq<char>>>::empty());
                    lemma_joined_push(Seq::empty(), line@);
                    assert(chunks.deep_view() =~= after.drop_last().map_values(
                        |g: Seq<Seq<char>>| chunk_text(g),
                    ));
                } else {
                    assert(joined(before.last()).len() > 0);
                    assert(after == before.drop_last().push(before.last().push(line@)));
                    assert(after.drop_last() =~= before.drop_last());
                    lemma_joined_push(before.last(), line@);
                }
            }
        }
        take_line(&mut acc, line);
        i += 1;
        proof {
            assert(acc@ =~= joined(after.last()));
        }
    }
    assert(ls.take(i as int) =~= ls);
    let ghost groups = line_groups(ls);
    let (a, b) = trim_bounds(&acc);
    if a < b {
        let text = string_from(&acc, a, b);
        let ghost old_chunks = chunks.deep_view();
        chunks.push(text);
        proof {
            assert(chunks.deep_view() =~= old_chunks.push(text@));
            assert(groups =~= groups.drop_last().push(groups.last()));
            assert(chunks.deep_view() =~= groups.map_values(|g: Seq<Seq<char>>| chunk_text(g)));
        }
    } else {
        proof {
            if i > 0 {
                assert(groups.map_values(|g: Seq<Seq<char>>| chunk_text(g)).drop_last()
                    =~= groups.drop_last().map_values(|g: Seq<Seq<char>>| chunk_text(g)));
            } else {
                assert(chunks.deep_view() =~= Seq::<Seq<char>>::empty());
            }
        }
    }
    assert(chunks.deep_view() == packed_chunks(lines_of(content@)));
    if chunks.len() == 0 {
        chunks.push(content.to_owned());
        assert(chunks.deep_view() =~= seq![content@]);
    }
    assert(chunks.deep_view().len() == chunks@.len());
    chunks
}

/// The lines that chunk `k` of `content` is made of: the `k`-th group of its
/// lines, or all of its lines where the whole content is the one chunk.
pub open spec fn chunk_lines(content: Seq<char>, k: int) -> Seq<Seq<char>> {
    if packed_chunks(lines_of(content)).len() == 0 {
        lines_of(content)
    } else {
        line_groups(lines_of(content))[k]
    }
}

/// A chunk within the size limit: at most `MAX_CHUNK_SIZE` characters, or one
/// more where the last is a line feed.
pub open spec fn within_limit(chunk: Seq<char>) -> bool {
    ||| chunk.len() <= MAX_CHUNK_SIZE
    ||| chunk.len() == MAX_CHUNK_SIZE + 1 && chunk.last() == '\n'
}

/// Packing neither drops nor repeats a line: the groups, one after another,
/// are the lines, and no group is empty.
pub proof fn lemma_groups_cover_lines(lines: Seq<Seq<char>>)
    ensures
        line_groups(lines).flatten() == lines,
        forall|k: int|
            0 <= k < line_groups(lines).len() ==> (#[trigger] line_groups(lines)[k]).len() > 0,
        lines.len() > 0 <==> line_groups(lines).len() > 0,
    decreases lines.len(),
{
    broadcast use Seq::lemma_flatten_push;

    if lines.len() == 0 {
        assert(line_groups(lines).flatten() =~= lines);
    } else {
        let before = line_groups(lines.drop_last());
        let line = lines.last();
        lemma_groups_cover_lines(lines.drop_last());
        assert(lines =~= lines.drop_last().push(line));
        if before.len() == 0 {
            assert(seq![seq![line]] =~= Seq::<Seq<Seq<char>>>::empty().push(seq![line]));
            assert(Seq::<Seq<Seq<char>>>::empty().flatten() =~= Seq::<Seq<char>>::empty());
            assert(line_groups(lines).flatten() =~= lines);
        } else if joined(before.last()).len() + line.len() > MAX_CHUNK_SIZE {
            assert(line_groups(lines).flatten() =~= lines);
        } else {
            assert(before =~= before.drop_last().push(before.last()));
            assert(before.drop_last().flatten() + before.last() =~= before.flatten());
            assert(line_groups(lines).flatten() =~= lines);
        }
    }
}

/// A group of two or more lines accumulates to at most `MAX_CHUNK_SIZE + 1`
/// characters, the last of them a line feed; and the line after a group is one
/// that the group could not take.
pub proof fn lemma_group_sizes(lines: Seq<Seq<char>>, k: int)
    requires
        0 <= k < line_groups(lines).len(),
    ensures
        line_groups(lines)[k].len() > 0,
        line_groups(lines)[k].len() >= 2 ==> joined(line_groups(lines)[k]).len() <= MAX_CHUNK_SIZE
            + 1,
        k + 1 < line_groups(lines).len() ==> joined(line_groups(lines)[k]).len() + line_groups(
            lines,
        )[k + 1][0].len() > MAX_CHUNK_SIZE,
    decreases lines.len(),
{
    lemma_groups_cover_lines(lines);
    let before = line_groups(lines.drop_last());
    let line = lines.last();
    lemma_groups_cover_lines(lines.drop_last());
    if before.len() == 0 {
    } else if joined(before.last()).len() + line.len() > MAX_CHUNK_SIZE {
        if k < before.len() {
            lemma_group_sizes(lines.drop_last(), k);
        }
    } else {
        if k < before.len() - 1 {
            lemma_group_sizes(lines.drop_last(), k);
            if k + 1 == before.len() - 1 {
                assert(before.last().push(line)[0] == before.last()[0]);
            }
        } else {
            lemma_joined_push(before.last(), line);
        }
    }
}

/// Chunk reconstruction. Every chunk that packing yields is the trimmed text of
/// one group of consecutive lines, the chunks follow the order of the groups,
/// the groups one after another are the lines of the content, and the only
/// group without a chunk is a last group of white space.
pub proof fn lemma_chunks_reconstruct_lines(content: Seq<char>)
    ensures
        line_groups(lines_of(content)).flatten() == lines_of(content),
        packed_chunks(lines_of(content)).len() <= line_groups(lines_of(content)).len(),
        line_groups(lines_of(content)).len() <= packed_chunks(lines_of(content)).len() + 1,
        forall|k: int|
            0 <= k < packed_chunks(lines_of(content)).len() ==> #[trigger] packed_chunks(
                lines_of(content),
            )[k] == trimmed(joined(line_groups(lines_of(content))[k])),
        packed_chunks(lines_of(content)).len() < line_groups(lines_of(content)).len() ==> is_blank(
            joined(line_groups(lines_of(content)).last()),
        ),
        chunks_of(content).len() >= 1,
{
    let lines = lines_of(content);
    lemma_groups_cover_lines(lines);
    if line_groups(lines).len() > 0 {
        lemma_trimmed_shape(joined(line_groups(lines).last()));
    }
}

/// Chunk size bound. A chunk is within the size limit unless it is made of a
/// single line. Left out is content of white space only that spans several
/// lines and is itself over the limit: it is kept whole as its one chunk.
pub proof fn lemma_chunk_size_bound(content: Seq<char>, k: int)
    requires
        0 <= k < chunks_of(content).len(),
        !(packed_chunks(lines_of(content)).len() == 0 && lines_of(content).len() >= 2
            && !within_limit(content)),
    ensures
        within_limit(chunks_of(content)[k]) || chunk_lines(content, k).len() == 1,
        packed_chunks(lines_of(content)).len() > 0 ==> chunks_of(content)[k].len()
            <= MAX_CHUNK_SIZE || chunks_of(content)[k].len() <= chunk_lines(content, k)[0].len(),
{
    let lines = lines_of(content);
    let groups = line_groups(lines);
    lemma_chunks_reconstruct_lines(content);
    if packed_chunks(lines).len() == 0 {
        lemma_groups_cover_lines(lines);
    } else {
        let group = groups[k];
        lemma_group_sizes(lines, k);
        lemma_joined_push(group.drop_last(), group.last());
        assert(group =~= group.drop_last().push(group.last()));
        lemma_trimmed_drops_last(joined(group));
        if group.len() == 1 {
            lemma_joined_push(Seq::empty(), group[0]);
            assert(group =~= seq![group[0]]);
        }
    }
}

/// No chunk is blank, unless the lines it is made of are white space only. That
/// they are happens where a run of blank lines fills a chunk before the text
/// ends, and where the whole content is white space.
pub proof fn lemma_chunks_not_blank(content: Seq<char>, k: int)
    requires
        0 <= k < chunks_of(content).len(),
        !is_blank(joined(chunk_lines(content, k))),
    ensures
        trimmed(chunks_of(content)[k]).len() > 0,
        chunks_of(content)[k].len() > 0,
{
    let lines = lines_of(content);
    lemma_chunks_reconstruct_lines(content);
    lemma_groups_cover_lines(lines);
    if packed_chunks(lines).len() == 0 {
        if lines.len() > 0 {
            assert(line_groups(lines).len() == 1);
            line_groups(lines).lemma_flatten_one_element();
            assert(line_groups(lines).last() == line_groups(lines).first());
        } else {
            assert(joined(lines) =~= Seq::<char>::empty());
        }
    } else {
        let group = line_groups(lines)[k];
        lemma_trimmed_shape(joined(group));
        lemma_trimmed_idempotent(joined(group));
    }
}

} // verus!
