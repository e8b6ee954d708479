//! Line/character range extraction over document content.
//!
//! Content is modelled as a sequence of characters; lines are obtained by
//! splitting on `'\n'` (empty content has exactly one empty line), and a
//! range denotes a slice of that line structure. Character offsets past a
//! line's end clamp to the end of the line rather than failing.

use vstd::prelude::*;
use vstd::string::*;

use crate::TextRange;

verus! {

/// The lines of `s`, split on `'\n'`. There is always at least one line;
/// a trailing newline yields a final empty line.
pub open spec fn spec_lines(s: Seq<char>) -> Seq<Seq<char>>
    decreases s.len(),
{
    if s.len() == 0 {
        seq![Seq::<char>::empty()]
    } else {
        let prev = spec_lines(s.drop_last());
        if s.last() == '\n' {
            prev.push(Seq::<char>::empty())
        } else {
            prev.update(prev.len() - 1, prev.last().push(s.last()))
        }
    }
}

/// Joins lines back together with `'\n'`; the inverse of `spec_lines`.
pub open spec fn spec_unlines(ls: Seq<Seq<char>>) -> Seq<char>
    decreases ls.len(),
{
    if ls.len() == 0 {
        Seq::<char>::empty()
    } else if ls.len() == 1 {
        ls[0]
    } else {
        spec_unlines(ls.drop_last()) + seq!['\n'] + ls.last()
    }
}

pub proof fn lemma_lines_nonempty(s: Seq<char>)
    ensures
        spec_lines(s).len() >= 1,
    decreases s.len(),
{
    if s.len() > 0 {
        lemma_lines_nonempty(s.drop_last());
    }
}

pub proof fn lemma_unlines_push(ls: Seq<Seq<char>>, x: Seq<char>)
    requires
        ls.len() >= 1,
    ensures
        spec_unlines(ls.push(x)) == spec_unlines(ls) + seq!['\n'] + x,
{
    assert(ls.push(x).drop_last() =~= ls);
    assert(ls.push(x).last() == x);
}

/// Splitting and re-joining reproduces the content exactly.
pub proof fn lemma_unlines_lines(s: Seq<char>)
    ensures
        spec_unlines(spec_lines(s)) == s,
    decreases s.len(),
{
    if s.len() == 0 {
        assert(spec_unlines(spec_lines(s)) =~= s);
    } else {
        let t = s.drop_last();
        let c = s.last();
        lemma_unlines_lines(t);
        lemma_lines_nonempty(t);
        let prev = spec_lines(t);
        if c == '\n' {
            lemma_unlines_push(prev, Seq::<char>::empty());
            assert(spec_unlines(spec_lines(s)) =~= s);
        } else {
            let updated = prev.update(prev.len() - 1, prev.last().push(c));
            assert(spec_lines(s) == updated);
            if prev.len() == 1 {
                assert(spec_unlines(updated) == updated[0]);
                assert(updated[0] == prev[0].push(c));
                assert(spec_unlines(prev) == prev[0]);
                assert(spec_unlines(spec_lines(s)) =~= s);
            } else {
                assert(updated.len() == prev.len());
                assert(updated.drop_last() =~= prev.drop_last());
                assert(updated.last() == prev.last().push(c));
                assert(spec_unlines(updated) == spec_unlines(prev.drop_last()) + seq!['\n']
                    + prev.last().push(c));
                assert(spec_unlines(prev) == spec_unlines(prev.drop_last()) + seq!['\n']
                    + prev.last());
                assert(spec_unlines(updated) =~= spec_unlines(prev).push(c));
                assert(s =~= t.push(c));
                assert(spec_unlines(spec_lines(s)) =~= s);
            }
        }
    }
}

pub open spec fn spec_min(a: int, b: int) -> int {
    if a <= b {
        a
    } else {
        b
    }
}

/// The slice of one line between character offsets `from` and `to`, each
/// clamped to the line's length; empty when the clamped start passes the
/// clamped end.
pub open spec fn spec_slice_line(line: Seq<char>, from: int, to: int) -> Seq<char> {
    let a = spec_min(from, line.len() as int);
    let b = spec_min(to, line.len() as int);
    if a <= b {
        line.subrange(a, b)
    } else {
        Seq::<char>::empty()
    }
}

/// The piece contributed by absolute line `k` of `lines` to an extraction
/// spanning lines `sl..=el` with character bounds `sc` and `ec`.
pub open spec fn spec_piece(
    lines: Seq<Seq<char>>,
    sl: int,
    el: int,
    sc: int,
    ec: int,
    k: int,
) -> Seq<char> {
    let line = lines[k];
    if sl == el {
        spec_slice_line(line, sc, ec)
    } else if k == sl {
        spec_slice_line(line, sc, line.len() as int)
    } else if k == el {
        spec_slice_line(line, 0, ec)
    } else {
        line
    }
}

/// What extracting `r` from `content` yields: the end line clamps to the
/// last line, a start line past the content (or past the clamped end line)
/// yields the empty string, and otherwise the per-line pieces are joined
/// with `'\n'`.
pub open spec fn spec_extract_range(content: Seq<char>, r: TextRange) -> Seq<char> {
    let lines = spec_lines(content);
    let n = lines.len() as int;
    let sl = r.start.line as int;
    let el = spec_min(r.end.line as int, n - 1);
    if sl >= n || sl > el {
        Seq::<char>::empty()
    } else {
        spec_unlines(
            Seq::new(
                (el - sl + 1) as nat,
                |i: int|
                    spec_piece(
                        lines,
                        sl,
                        el,
                        r.start.character as int,
                        r.end.character as int,
                        sl + i,
                    ),
            ),
        )
    }
}

/// A range that both starts and ends at the very first character yields
/// the empty string, whatever the content.
pub proof fn lemma_extract_zero_range(content: Seq<char>, r: TextRange)
    requires
        r.start.line == 0,
        r.start.character == 0,
        r.end.line == 0,
        r.end.character == 0,
    ensures
        spec_extract_range(content, r) == Seq::<char>::empty(),
{
    lemma_lines_nonempty(content);
    let lines = spec_lines(content);
    let pieces = Seq::new(1nat, |i: int| spec_piece(lines, 0, 0, 0, 0, 0 + i));
    assert(spec_slice_line(lines[0], 0, 0) =~= Seq::<char>::empty());
    assert(spec_unlines(pieces) == pieces[0]);
    assert(spec_extract_range(content, r) =~= Seq::<char>::empty());
}

/// A character offset at or past the end of a line contributes the empty
/// slice for that line.
pub proof fn lemma_slice_past_end(line: Seq<char>, from: int, to: int)
    requires
        from >= line.len(),
    ensures
        spec_slice_line(line, from, to) == Seq::<char>::empty(),
{
    assert(spec_slice_line(line, from, to) =~= Seq::<char>::empty());
}

/// Extracting from line 0, character 0 through the last line at its full
/// length reproduces the whole content.
pub proof fn lemma_extract_full(content: Seq<char>, r: TextRange)
    requires
        r.start.line == 0,
        r.start.character == 0,
        r.end.line as int == spec_lines(content).len() - 1,
        r.end.character as int >= spec_lines(content).last().len(),
    ensures
        spec_extract_range(content, r) == content,
{
    lemma_lines_nonempty(content);
    let lines = spec_lines(content);
    let n = lines.len() as int;
    let pieces = Seq::new(
        n as nat,
        |i: int| spec_piece(lines, 0, n - 1, 0, r.end.character as int, 0 + i),
    );
    assert forall|i: int| 0 <= i < n implies pieces[i] == lines[i] by {
        if n == 1 {
            assert(spec_slice_line(lines[0], 0, r.end.character as int) =~= lines[0]);
        } else if i == 0 {
            assert(spec_slice_line(lines[0], 0, lines[0].len() as int) =~= lines[0]);
        } else if i == n - 1 {
            assert(spec_slice_line(lines[i], 0, r.end.character as int) =~= lines[i]);
        }
    }
    assert(pieces =~= lines);
    lemma_unlines_lines(content);
}

/// Extracts `range` from `content`, exactly as `spec_extract_range`
/// describes. Never fails: out-of-bounds lines yield the empty string and
/// out-of-bounds characters clamp to the line's end.
#[verifier::loop_isolation(false)]
pub fn extract_range(content: &str, range: &TextRange) -> (r: String)
    ensures
        r@ == spec_extract_range(content@, *range),
{
    let len = content.unicode_len();
    let mut spans: Vec<(usize, usize)> = Vec::new();
    let mut line_start: usize = 0;
    let mut i: usize = 0;
    proof {
        assert(content@.take(0) =~= Seq::<char>::empty());
        assert(content@.subrange(0, 0) =~= Seq::<char>::empty());
    }
    while i < len
        invariant
            i <= len,
            line_start <= i,
            spans@.len() + 1 == spec_lines(content@.take(i as int)).len(),
            forall|j: int|
                0 <= j < spans@.len() ==> (#[trigger] spans@[j]).0 <= spans@[j].1 && spans@[j].1
                    <= i && spec_lines(content@.take(i as int))[j] == content@.subrange(
                    spans@[j].0 as int,
                    spans@[j].1 as int,
                ),
            spec_lines(content@.take(i as int)).last() == content@.subrange(
                line_start as int,
                i as int,
            ),
        decreases len - i,
    {
        let c = content.get_char(i);
        proof {
            assert(content@.take(i as int + 1).drop_last() =~= content@.take(i as int));
            assert(content@.take(i as int + 1).last() == content@[i as int]);
            lemma_lines_nonempty(content@.take(i as int));
        }
        if c == '\n' {
            spans.push((line_start, i));
            line_start = i + 1;
            proof {
                assert(content@.subrange(i as int + 1, i as int + 1) =~= Seq::<char>::empty());
            }
        } else {
            proof {
                assert(content@.subrange(line_start as int, i as int).push(content@[i as int])
                    =~= content@.subrange(line_start as int, i as int + 1));
            }
        }
        i = i + 1;
    }
    spans.push((line_start, len));
    proof {
        assert(content@.take(len as int) =~= content@);
    }
    let ghost lines = spec_lines(content@);
    let n = spans.len();
    let sl: usize = range.start.line as usize;
    let mut el: usize = range.end.line as usize;
    if el >= n {
        el = n - 1;
    }
    if sl >= n || sl > el {
        proof {
            reveal_strlit("");
        }
        return String::new();
    }
    let ghost pieces = Seq::new(
        (el - sl + 1) as nat,
        |i: int|
            spec_piece(
                lines,
                sl as int,
                el as int,
                range.start.character as int,
                range.end.character as int,
                sl as int + i,
            ),
    );
    let sc: usize = range.start.character as usize;
    let ec: usize = range.end.character as usize;
    let mut result = String::new();
    let mut k: usize = sl;
    while k <= el
        invariant
            sl <= k <= el + 1,
            k == sl ==> result@ == Seq::<char>::empty(),
            k > sl ==> result@ == spec_unlines(pieces.take(k - sl)),
        decreases el + 1 - k,
    {
        let (a, b) = spans[k];
        proof {
            assert(lines[k as int] == content@.subrange(a as int, b as int));
            assert(lines[k as int].len() == b - a);
        }
        let line_len: usize = b - a;
        let piece: &str = if sl == el {
            let from = if sc < line_len {
                sc
            } else {
                line_len
            };
            let to = if ec < line_len {
                ec
            } else {
                line_len
            };
            if from <= to {
                proof {
                    assert(content@.subrange(a as int, b as int).subrange(
                        from as int,
                        to as int,
                    ) =~= content@.subrange(a as int + from, a as int + to));
                }
                content.substring_char(a + from, a + to)
            } else {
                proof {
                    reveal_strlit("");
                }
                ""
            }
        } else if k == sl {
            let from = if sc < line_len {
                sc
            } else {
                line_len
            };
            proof {
                assert(content@.subrange(a as int, b as int).subrange(
                    from as int,
                    line_len as int,
                ) =~= content@.subrange(a as int + from, b as int));
            }
            content.substring_char(a + from, b)
        } else if k == el {
            let to = if ec < line_len {
                ec
            } else {
                line_len
            };
            proof {
                assert(content@.subrange(a as int, b as int).subrange(0, to as int)
                    =~= content@.subrange(a as int, a as int + to));
            }
            content.substring_char(a, a + to)
        } else {
            content.substring_char(a, b)
        };
        proof {
            assert(piece@ == pieces[k - sl]);
        }
        if k == sl {
            result.append(piece);
            proof {
                assert(pieces.take(1) =~= seq![pieces[0]]);
                assert(spec_unlines(pieces.take(1)) == pieces[0]);
            }
        } else {
            result.append("\n");
            result.append(piece);
            proof {
                reveal_strlit("\n");
                assert("\n"@ =~= seq!['\n']);
                lemma_unlines_push(pieces.take(k - sl), piece@);
                assert(pieces.take(k + 1 - sl) =~= pieces.take(k - sl).push(
                    pieces[k - sl],
                ));
            }
        }
        k = k + 1;
    }
    proof {
        assert(pieces.take(el + 1 - sl) =~= pieces);
    }
    result
}

} // verus!
