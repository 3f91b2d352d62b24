use vstd::prelude::*;

verus! {

/// The byte that ends a line.
pub const NEWLINE: u8 = 10;

/// The byte that may stand before the end of a line and is then dropped.
pub const CARRIAGE_RETURN: u8 = 13;

/// What a vector of lines holds.
pub open spec fn byte_lines(lines: Seq<Vec<u8>>) -> Seq<Seq<u8>> {
    Seq::new(lines.len(), |i: int| lines[i]@)
}

/// The content of a snapshot file: each line followed by a newline.
pub open spec fn framed(lines: Seq<Seq<u8>>) -> Seq<u8>
    decreases lines.len(),
{
    if lines.len() == 0 {
        Seq::empty()
    } else {
        lines.first() + seq![NEWLINE] + framed(lines.drop_first())
    }
}

/// The number of bytes before the first newline, or before the end where
/// there is no newline.
pub open spec fn line_end(data: Seq<u8>) -> int
    decreases data.len(),
{
    if data.len() == 0 || data[0] == NEWLINE {
        0
    } else {
        1 + line_end(data.drop_first())
    }
}

/// A line without the carriage return that stood before its newline.
pub open spec fn without_cr(line: Seq<u8>) -> Seq<u8> {
    if line.len() > 0 && line.last() == CARRIAGE_RETURN {
        line.drop_last()
    } else {
        line
    }
}

/// The lines of a file: what stands between its newlines, each without a
/// closing carriage return, and what follows the last newline if anything
/// does.
pub open spec fn lines_of(data: Seq<u8>) -> Seq<Seq<u8>>
    decreases data.len(),
{
    if data.len() == 0 {
        Seq::empty()
    } else {
        let k = line_end(data);
        if k < 0 || k >= data.len() {
            seq![data]
        } else {
            seq![without_cr(data.take(k))] + lines_of(data.skip(k + 1))
        }
    }
}

/// A line that a file can hold and give back unchanged: it has no newline
/// and does not end in a carriage return.
pub open spec fn plain_line(line: Seq<u8>) -> bool {
    &&& forall|i: int| 0 <= i < line.len() ==> line[i] != NEWLINE
    &&& without_cr(line) == line
}

proof fn lemma_line_end_bounds(data: Seq<u8>)
    ensures
        0 <= line_end(data) <= data.len(),
        line_end(data) < data.len() ==> data[line_end(data)] == NEWLINE,
        forall|i: int| 0 <= i < line_end(data) ==> data[i] != NEWLINE,
    decreases data.len(),
{
    if data.len() == 0 || data[0] == NEWLINE {
    } else {
        let rest = data.drop_first();
        lemma_line_end_bounds(rest);
        assert forall|i: int| 0 <= i < line_end(data) implies data[i] != NEWLINE by {
            if i > 0 {
                assert(rest[i - 1] == data[i]);
            }
        }
    }
}

proof fn lemma_line_end_is(data: Seq<u8>, k: int)
    requires
        0 <= k <= data.len(),
        forall|i: int| 0 <= i < k ==> data[i] != NEWLINE,
        k < data.len() ==> data[k] == NEWLINE,
    ensures
        line_end(data) == k,
{
    lemma_line_end_bounds(data);
    let e = line_end(data);
    if e < k {
        assert(data[e] != NEWLINE);
    } else if k < e {
        assert(data[k] != NEWLINE);
    }
}

proof fn lemma_framed_push(lines: Seq<Seq<u8>>, line: Seq<u8>)
    ensures
        framed(lines.push(line)) == framed(lines) + line + seq![NEWLINE],
    decreases lines.len(),
{
    let pushed = lines.push(line);
    if lines.len() == 0 {
        assert(pushed.first() == line);
        assert(pushed.drop_first() =~= Seq::<Seq<u8>>::empty());
        assert(framed(pushed.drop_first()) =~= Seq::<u8>::empty());
        assert(framed(lines) =~= Seq::<u8>::empty());
        assert(framed(lines.push(line)) =~= framed(lines) + line + seq![NEWLINE]);
    } else {
        let rest = lines.drop_first();
        lemma_framed_push(rest, line);
        assert(pushed.first() == lines.first());
        assert(pushed.drop_first() =~= rest.push(line));
        assert(framed(lines.push(line)) =~= framed(lines) + line + seq![NEWLINE]);
    }
}

/// Splitting a framed file gives back the lines that were framed, as long
/// as each of them is a plain line.
pub proof fn lemma_split_framed(lines: Seq<Seq<u8>>)
    requires
        forall|i: int| 0 <= i < lines.len() ==> plain_line(#[trigger] lines[i]),
    ensures
        lines_of(framed(lines)) == lines,
    decreases lines.len(),
{
    if lines.len() == 0 {
        assert(lines_of(framed(lines)) =~= lines);
    } else {
        let head = lines.first();
        let rest = lines.drop_first();
        let data = framed(lines);
        assert(plain_line(lines[0]));
        assert forall|i: int| 0 <= i < rest.len() implies plain_line(#[trigger] rest[i]) by {
            assert(rest[i] == lines[i + 1]);
        }
        lemma_split_framed(rest);
        let k = head.len() as int;
        assert(data[k] == NEWLINE);
        assert forall|i: int| 0 <= i < k implies data[i] != NEWLINE by {
            assert(data[i] == head[i]);
        }
        lemma_line_end_is(data, k);
        assert(data.take(k) =~= head);
        assert(data.skip(k + 1) =~= framed(rest));
        assert(lines_of(data) =~= seq![head] + rest);
        assert(seq![head] + rest =~= lines);
    }
}

fn copy_range(data: &[u8], from: usize, to: usize) -> (part: Vec<u8>)
    requires
        from <= to <= data@.len(),
    ensures
        part@ == data@.subrange(from as int, to as int),
{
    let mut part: Vec<u8> = Vec::new();
    let mut i: usize = from;
    while i < to
        invariant
            from <= i <= to <= data@.len(),
            part@ == data@.subrange(from as int, i as int),
        decreases to - i,
    {
        part.push(data[i]);
        assert(part@ =~= data@.subrange(from as int, i + 1));
        i = i + 1;
    }
    part
}

/// Frames lines as the content of a snapshot file.
pub fn frame_lines(lines: &Vec<Vec<u8>>) -> (data: Vec<u8>)
    ensures
        data@ == framed(byte_lines(lines@)),
{
    let mut data: Vec<u8> = Vec::new();
    let mut i: usize = 0;
    assert(byte_lines(lines@).take(0) =~= Seq::<Seq<u8>>::empty());
    while i < lines.len()
        invariant
            i <= lines.len(),
            data@ == framed(byte_lines(lines@).take(i as int)),
        decreases lines.len() - i,
    {
        let line = &lines[i];
        let ghost before = data@;
        let mut j: usize = 0;
        while j < line.len()
            invariant
                j <= line.len(),
                data@ == before + line@.take(j as int),
            decreases line.len() - j,
        {
            data.push(line[j]);
            assert(data@ =~= before + line@.take(j + 1));
            j = j + 1;
        }
        data.push(NEWLINE);
        proof {
            assert(line@.take(j as int) =~= line@);
            assert(data@ =~= before + line@ + seq![NEWLINE]);
            assert(byte_lines(lines@)[i as int] == line@);
            assert(byte_lines(lines@).take(i + 1) =~= byte_lines(lines@).take(i as int).push(line@));
            lemma_framed_push(byte_lines(lines@).take(i as int), line@);
        }
        i = i + 1;
    }
    assert(byte_lines(lines@).take(i as int) =~= byte_lines(lines@));
    data
}

/// Splits the content of a snapshot file into its lines.
pub fn split_lines(data: &[u8]) -> (lines: Vec<Vec<u8>>)
    ensures
        byte_lines(lines@) == lines_of(data@),
{
    let mut lines: Vec<Vec<u8>> = Vec::new();
    let n: usize = data.len();
    let mut start: usize = 0;
    assert(data@.skip(0) =~= data@);
    assert(byte_lines(lines@) =~= Seq::<Seq<u8>>::empty());
    while start < n
        invariant
            n == data@.len(),
            start <= n,
            lines_of(data@) == byte_lines(lines@) + lines_of(data@.skip(start as int)),
        decreases n - start,
    {
        let mut end: usize = start;
        while end < n && data[end] != NEWLINE
            invariant
                n == data@.len(),
                start <= end <= n,
                forall|i: int| start <= i < end ==> data@[i] != NEWLINE,
            decreases n - end,
        {
            end = end + 1;
        }
        let ghost rest = data@.skip(start as int);
        let ghost done = byte_lines(lines@);
        proof {
            assert forall|i: int| 0 <= i < end - start implies rest[i] != NEWLINE by {
                assert(rest[i] == data@[start + i]);
            }
            lemma_line_end_is(rest, end - start);
        }
        if end == n {
            let line = copy_range(data, start, n);
            lines.push(line);
            proof {
                assert(line@ =~= rest);
                assert(lines_of(rest) =~= seq![rest]);
                assert(byte_lines(lines@) =~= done.push(rest));
                assert(data@.skip(n as int) =~= Seq::<u8>::empty());
                assert(lines_of(data@.skip(n as int)) =~= Seq::<Seq<u8>>::empty());
                assert(lines_of(data@) =~= byte_lines(lines@) + lines_of(data@.skip(n as int)));
            }
            start = n;
        } else {
            let stop: usize = if end > start && data[end - 1] == CARRIAGE_RETURN {
                end - 1
            } else {
                end
            };
            let line = copy_range(data, start, stop);
            lines.push(line);
            proof {
                let whole = rest.take(end - start);
                assert(whole =~= data@.subrange(start as int, end as int));
                if end > start {
                    assert(whole.last() == data@[end - 1]);
                }
                assert(line@ =~= without_cr(whole));
                assert(rest.skip(end - start + 1) =~= data@.skip(end + 1));
                assert(byte_lines(lines@) =~= done.push(line@));
                assert(lines_of(data@) =~= byte_lines(lines@) + lines_of(data@.skip(end + 1)));
            }
            start = end + 1;
        }
    }
    proof {
        assert(data@.skip(start as int) =~= Seq::<u8>::empty());
        assert(byte_lines(lines@) + Seq::<Seq<u8>>::empty() =~= byte_lines(lines@));
    }
    lines
}

} // verus!
