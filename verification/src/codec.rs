//! Framing codecs: newline-delimited lines with a length bound, and
//! fixed-maximum-size blobs.  Both turn one finite byte stream into a
//! sequence of frames.

use vstd::prelude::*;

verus! {

pub const NEWLINE: u8 = 10;

pub const CARRIAGE_RETURN: u8 = 13;

/// The frames of the sized-blob codec: slices of `max` bytes in order, the
/// final one shorter when the input length is not a multiple of `max`.
pub open spec fn blob_frames(s: Seq<u8>, max: nat) -> Seq<Seq<u8>>
    decreases s.len(),
{
    if max == 0 || s.len() == 0 {
        Seq::empty()
    } else if s.len() <= max {
        seq![s]
    } else {
        seq![s.take(max as int)] + blob_frames(s.skip(max as int), max)
    }
}

/// All frames joined back into one byte sequence.
pub open spec fn concat_frames(frames: Seq<Seq<u8>>) -> Seq<u8>
    decreases frames.len(),
{
    if frames.len() == 0 {
        Seq::empty()
    } else {
        frames.first() + concat_frames(frames.drop_first())
    }
}

/// A line with one trailing carriage return removed.
pub open spec fn strip_cr(line: Seq<u8>) -> Seq<u8> {
    if line.len() > 0 && line.last() == CARRIAGE_RETURN {
        line.drop_last()
    } else {
        line
    }
}

/// The newline-separated segments of `s` that follow a partial first segment
/// `cur`: each newline ends a segment, and a non-empty remainder at the end of
/// input forms a final segment.
pub open spec fn segments_from(s: Seq<u8>, cur: Seq<u8>) -> Seq<Seq<u8>>
    decreases s.len(),
{
    if s.len() == 0 {
        if cur.len() == 0 {
            Seq::empty()
        } else {
            seq![cur]
        }
    } else if s.first() == NEWLINE {
        seq![cur] + segments_from(s.drop_first(), Seq::empty())
    } else {
        segments_from(s.drop_first(), cur.push(s.first()))
    }
}

/// The newline-separated segments of `s`, without the newlines themselves.
pub open spec fn segments(s: Seq<u8>) -> Seq<Seq<u8>> {
    segments_from(s, Seq::empty())
}

/// The members of `lines` of length at most `max`, in order.
pub open spec fn short_lines(lines: Seq<Seq<u8>>, max: nat) -> Seq<Seq<u8>>
    decreases lines.len(),
{
    if lines.len() == 0 {
        Seq::empty()
    } else if lines.first().len() <= max {
        seq![lines.first()] + short_lines(lines.drop_first(), max)
    } else {
        short_lines(lines.drop_first(), max)
    }
}

/// The frames of the line codec while a partial line `cur` is buffered: each
/// newline ends a line, a trailing carriage return is stripped from it, and a
/// line longer than `max` after stripping is discarded whole.  A non-empty
/// remainder at end of input is treated as a final line.
pub open spec fn line_frames_from(s: Seq<u8>, cur: Seq<u8>, max: nat) -> Seq<Seq<u8>>
    decreases s.len(),
{
    if s.len() == 0 {
        if cur.len() == 0 {
            Seq::empty()
        } else if strip_cr(cur).len() <= max {
            seq![strip_cr(cur)]
        } else {
            Seq::empty()
        }
    } else if s.first() == NEWLINE {
        let rest = line_frames_from(s.drop_first(), Seq::empty(), max);
        if strip_cr(cur).len() <= max {
            seq![strip_cr(cur)] + rest
        } else {
            rest
        }
    } else {
        line_frames_from(s.drop_first(), cur.push(s.first()), max)
    }
}

/// Each line with one trailing carriage return removed.
pub open spec fn stripped(lines: Seq<Seq<u8>>) -> Seq<Seq<u8>> {
    lines.map_values(|l: Seq<u8>| strip_cr(l))
}

/// The frames of the line codec over the whole input `s`.
pub open spec fn line_frames(s: Seq<u8>, max: nat) -> Seq<Seq<u8>> {
    line_frames_from(s, Seq::empty(), max)
}

/// The view of a list of frames as a sequence of byte sequences.
pub open spec fn frames_view(frames: Seq<Vec<u8>>) -> Seq<Seq<u8>> {
    frames.map_values(|f: Vec<u8>| f@)
}

/// Frame fidelity of the sized-blob codec: concatenating the frames restores
/// the input, no frame exceeds `max`, and every frame before the last is
/// exactly `max` bytes.
pub proof fn lemma_blob_frame_fidelity(s: Seq<u8>, max: nat)
    requires
        max > 0,
    ensures
        concat_frames(blob_frames(s, max)) == s,
        forall|i: int|
            0 <= i < blob_frames(s, max).len() ==> #[trigger] blob_frames(s, max)[i].len() <= max,
        forall|i: int|
            0 <= i < blob_frames(s, max).len() - 1 ==> #[trigger] blob_frames(s, max)[i].len()
                == max,
    decreases s.len(),
{
    let fs = blob_frames(s, max);
    if s.len() == 0 {
        assert(concat_frames(fs) =~= s);
    } else if s.len() <= max {
        assert(fs == seq![s]);
        assert(fs.drop_first() =~= Seq::<Seq<u8>>::empty());
        assert(concat_frames(fs.drop_first()) =~= Seq::<u8>::empty());
        assert(concat_frames(fs) =~= s);
    } else {
        let head = s.take(max as int);
        let tail = s.skip(max as int);
        lemma_blob_frame_fidelity(tail, max);
        let tfs = blob_frames(tail, max);
        assert(fs == seq![head] + tfs);
        assert(fs.first() == head);
        assert(fs.drop_first() =~= tfs);
        assert(concat_frames(fs) =~= head + concat_frames(tfs));
        assert(head + tail =~= s);
        assert forall|i: int| 0 <= i < fs.len() implies #[trigger] fs[i].len() <= max by {
            if i > 0 {
                assert(fs[i] == tfs[i - 1]);
            }
        }
        assert forall|i: int| 0 <= i < fs.len() - 1 implies #[trigger] fs[i].len() == max by {
            if i > 0 {
                assert(fs[i] == tfs[i - 1]);
            }
        }
    }
}

/// Frame fidelity of the line codec: its frames are exactly the
/// carriage-return-stripped newline segments of the input that do not exceed
/// `max`, in order; overflowing segments are omitted.
pub proof fn lemma_line_frames_are_short_segments(s: Seq<u8>, max: nat)
    ensures
        line_frames(s, max) == short_lines(stripped(segments(s)), max),
{
    lemma_line_frames_from_short_lines(s, Seq::empty(), max);
}

proof fn lemma_line_frames_from_short_lines(s: Seq<u8>, cur: Seq<u8>, max: nat)
    ensures
        line_frames_from(s, cur, max) == short_lines(stripped(segments_from(s, cur)), max),
    decreases s.len(),
{
    if s.len() == 0 {
        if cur.len() == 0 {
            assert(stripped(segments_from(s, cur)) =~= Seq::<Seq<u8>>::empty());
        } else {
            let mapped = stripped(segments_from(s, cur));
            assert(mapped =~= seq![strip_cr(cur)]);
            assert(mapped.drop_first() =~= Seq::<Seq<u8>>::empty());
            assert(short_lines(mapped.drop_first(), max) =~= Seq::<Seq<u8>>::empty());
            if strip_cr(cur).len() <= max {
                assert(seq![mapped.first()] + Seq::<Seq<u8>>::empty() =~= seq![strip_cr(cur)]);
            }
        }
    } else if s.first() == NEWLINE {
        lemma_line_frames_from_short_lines(s.drop_first(), Seq::empty(), max);
        let segs = segments_from(s.drop_first(), Seq::empty());
        let mapped = stripped(segments_from(s, cur));
        assert(segments_from(s, cur) == seq![cur] + segs);
        assert(mapped =~= seq![strip_cr(cur)] + stripped(segs));
        assert(mapped.first() == strip_cr(cur));
        assert(mapped.drop_first() =~= stripped(segs));
        if strip_cr(cur).len() <= max {
            assert(short_lines(mapped, max) == seq![strip_cr(cur)] + short_lines(
                stripped(segs),
                max,
            ));
        }
    } else {
        lemma_line_frames_from_short_lines(s.drop_first(), cur.push(s.first()), max);
        assert(segments_from(s, cur) == segments_from(s.drop_first(), cur.push(s.first())));
    }
}

/// When no segment overflows, the line codec's frames are exactly all the
/// carriage-return-stripped newline segments, in order.
pub proof fn lemma_line_frames_no_overflow(s: Seq<u8>, max: nat)
    requires
        forall|i: int|
            0 <= i < segments(s).len() ==> strip_cr(#[trigger] segments(s)[i]).len() <= max,
    ensures
        line_frames(s, max) == stripped(segments(s)),
{
    lemma_line_frames_are_short_segments(s, max);
    let mapped = stripped(segments(s));
    assert forall|i: int| 0 <= i < mapped.len() implies #[trigger] mapped[i].len() <= max by {
        assert(mapped[i] == strip_cr(segments(s)[i]));
    }
    lemma_short_lines_all_short(mapped, max);
}

proof fn lemma_short_lines_all_short(lines: Seq<Seq<u8>>, max: nat)
    requires
        forall|i: int| 0 <= i < lines.len() ==> #[trigger] lines[i].len() <= max,
    ensures
        short_lines(lines, max) == lines,
    decreases lines.len(),
{
    if lines.len() == 0 {
        assert(short_lines(lines, max) =~= lines);
    } else {
        assert forall|i: int| 0 <= i < lines.drop_first().len() implies #[trigger] lines.drop_first()[i].len()
            <= max by {
            assert(lines.drop_first()[i] == lines[i + 1]);
        }
        lemma_short_lines_all_short(lines.drop_first(), max);
        assert(seq![lines.first()] + lines.drop_first() =~= lines);
    }
}

proof fn lemma_frames_view_push(frames: Seq<Vec<u8>>, f: Vec<u8>)
    ensures
        frames_view(frames.push(f)) == frames_view(frames) + seq![f@],
{
    assert(frames_view(frames.push(f)) =~= frames_view(frames) + seq![f@]);
}

/// Splits the input into blobs of at most `max_length` bytes, in order.
pub fn decode_sized_blobs(input: &[u8], max_length: usize) -> (frames: Vec<Vec<u8>>)
    requires
        max_length > 0,
    ensures
        frames_view(frames@) == blob_frames(input@, max_length as nat),
{
    let mut frames: Vec<Vec<u8>> = Vec::new();
    let mut i: usize = 0;
    proof {
        assert(frames_view(frames@) =~= Seq::<Seq<u8>>::empty());
        assert(input@.skip(0) =~= input@);
    }
    while i < input.len()
        invariant
            max_length > 0,
            i <= input@.len(),
            blob_frames(input@, max_length as nat) == frames_view(frames@) + blob_frames(
                input@.skip(i as int),
                max_length as nat,
            ),
        decreases input@.len() - i,
    {
        let end = if input.len() - i < max_length {
            input.len()
        } else {
            i + max_length
        };
        let frame: Vec<u8> = vstd::slice::slice_to_vec(&input[i..end]);
        proof {
            let rest = input@.skip(i as int);
            lemma_frames_view_push(frames@, frame);
            if rest.len() <= max_length as nat {
                assert(frame@ =~= rest);
                assert(blob_frames(rest, max_length as nat) == seq![rest]);
                assert(frames_view(frames@) + seq![rest] + Seq::<Seq<u8>>::empty()
                    =~= frames_view(frames@) + blob_frames(rest, max_length as nat));
                assert(blob_frames(input@.skip(end as int), max_length as nat)
                    =~= Seq::<Seq<u8>>::empty());
            } else {
                assert(frame@ =~= rest.take(max_length as int));
                assert(rest.skip(max_length as int) =~= input@.skip(end as int));
                assert(frames_view(frames@) + (seq![frame@] + blob_frames(
                    input@.skip(end as int),
                    max_length as nat,
                )) =~= (frames_view(frames@) + seq![frame@]) + blob_frames(
                    input@.skip(end as int),
                    max_length as nat,
                ));
            }
        }
        frames.push(frame);
        i = end;
    }
    proof {
        assert(input@.skip(i as int) =~= Seq::<u8>::empty());
        assert(frames_view(frames@) + blob_frames(Seq::empty(), max_length as nat)
            =~= frames_view(frames@));
    }
    frames
}

/// Splits the input on newlines, strips one trailing carriage return from each
/// line, and discards lines longer than `max_length`.
pub fn decode_lines(input: &[u8], max_length: usize) -> (frames: Vec<Vec<u8>>)
    ensures
        frames_view(frames@) == line_frames(input@, max_length as nat),
{
    let mut frames: Vec<Vec<u8>> = Vec::new();
    let mut cur: Vec<u8> = Vec::new();
    let mut i: usize = 0;
    proof {
        assert(frames_view(frames@) =~= Seq::<Seq<u8>>::empty());
        assert(input@.skip(0) =~= input@);
    }
    while i < input.len()
        invariant
            i <= input@.len(),
            line_frames(input@, max_length as nat) == frames_view(frames@) + line_frames_from(
                input@.skip(i as int),
                cur@,
                max_length as nat,
            ),
        decreases input@.len() - i,
    {
        let b = input[i];
        proof {
            let rest = input@.skip(i as int);
            assert(rest.first() == input@[i as int]);
            assert(rest.drop_first() =~= input@.skip(i + 1));
        }
        if b == NEWLINE {
            let mut line = cur;
            let ghost cur0 = line@;
            cur = Vec::new();
            if line.len() > 0 && line[line.len() - 1] == CARRIAGE_RETURN {
                line.pop();
            }
            proof {
                assert(line@ == strip_cr(cur0));
            }
            if line.len() <= max_length {
                proof {
                    lemma_frames_view_push(frames@, line);
                    assert(frames_view(frames@) + (seq![line@] + line_frames_from(
                        input@.skip(i + 1),
                        Seq::empty(),
                        max_length as nat,
                    )) =~= (frames_view(frames@) + seq![line@]) + line_frames_from(
                        input@.skip(i + 1),
                        Seq::empty(),
                        max_length as nat,
                    ));
                }
                frames.push(line);
            }
        } else {
            cur.push(b);
        }
        i = i + 1;
    }
    proof {
        assert(input@.skip(i as int) =~= Seq::<u8>::empty());
    }
    let mut line = cur;
    let ghost cur0 = line@;
    if line.len() > 0 {
        if line[line.len() - 1] == CARRIAGE_RETURN {
            line.pop();
        }
        proof {
            assert(line@ == strip_cr(cur0));
        }
        if line.len() <= max_length {
            proof {
                lemma_frames_view_push(frames@, line);
                assert(frames_view(frames@) + seq![line@] =~= frames_view(frames@) + seq![
                    strip_cr(cur0),
                ]);
            }
            frames.push(line);
        } else {
            proof {
                assert(frames_view(frames@) + Seq::<Seq<u8>>::empty() =~= frames_view(frames@));
            }
        }
    } else {
        proof {
            assert(frames_view(frames@) + Seq::<Seq<u8>>::empty() =~= frames_view(frames@));
        }
    }
    frames
}

} // verus!
