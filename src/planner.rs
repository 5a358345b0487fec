//! Extraction of the commands that a watched file asks to replay on reload.
use vstd::prelude::*;
use vstd::std_specs::iter::IteratorSpec;

verus! {

/// The marker that opens a directive line.
pub open spec fn marker() -> Seq<char> {
    seq!['-', '-', ' ', 'r', 'u', 'n', ':']
}

/// The pieces of `s` between newline characters, in order; there is always at least one.
pub open spec fn newline_pieces(s: Seq<char>) -> Seq<Seq<char>>
    decreases s.len(),
{
    if s.len() == 0 {
        seq![Seq::empty()]
    } else {
        let prev = newline_pieces(s.drop_last());
        if s.last() == '\n' {
            prev.push(Seq::empty())
        } else {
            prev.update(prev.len() - 1, prev.last().push(s.last()))
        }
    }
}

/// A line that ended with `\r\n` loses its carriage return.
pub open spec fn strip_cr(p: Seq<char>) -> Seq<char> {
    if p.len() > 0 && p.last() == '\r' {
        p.drop_last()
    } else {
        p
    }
}

/// The lines of `s`: split at `\n` or `\r\n`; a trailing empty piece is no line.
pub open spec fn lines_of(s: Seq<char>) -> Seq<Seq<char>> {
    let p = newline_pieces(s);
    let ended = p.drop_last().map_values(|x: Seq<char>| strip_cr(x));
    if p.last().len() == 0 {
        ended
    } else {
        ended.push(p.last())
    }
}

/// Whether a line begins with the marker.
pub open spec fn is_directive(line: Seq<char>) -> bool {
    line.len() >= marker().len() && line.take(marker().len() as int) == marker()
}

/// What follows the marker on a directive line.
pub open spec fn directive_body(line: Seq<char>) -> Seq<char> {
    line.skip(marker().len() as int)
}

/// `is_directive` as a predicate value.
pub open spec fn directive_pred() -> spec_fn(Seq<char>) -> bool {
    |l: Seq<char>| is_directive(l)
}

/// The commands carried by a sequence of lines, in order.
pub open spec fn directives_of(lines: Seq<Seq<char>>) -> Seq<Seq<char>> {
    lines.filter(directive_pred()).map_values(|l: Seq<char>| directive_body(l))
}

/// The reload script of a file's text.
pub open spec fn reload_script(text: Seq<char>) -> Seq<Seq<char>> {
    directives_of(lines_of(text))
}

proof fn lemma_pieces_nonempty(s: Seq<char>)
    ensures
        newline_pieces(s).len() >= 1,
    decreases s.len(),
{
    if s.len() > 0 {
        lemma_pieces_nonempty(s.drop_last());
    }
}

proof fn lemma_directives_push(lines: Seq<Seq<char>>, l: Seq<char>)
    ensures
        directives_of(lines.push(l)) == if is_directive(l) {
            directives_of(lines).push(directive_body(l))
        } else {
            directives_of(lines)
        },
{
    let pred = directive_pred();
    assert(lines.push(l).drop_last() =~= lines);
    assert(lines.push(l).last() == l);
    lines.lemma_filter_push(l, pred);
    let f = lines.filter(pred);
    if is_directive(l) {
        assert(lines.push(l).filter(pred) == f.push(l));
        assert(f.push(l).map_values(|x: Seq<char>| directive_body(x)) =~= f.map_values(
            |x: Seq<char>| directive_body(x),
        ).push(directive_body(l)));
    } else {
        assert(lines.push(l).filter(pred) == f);
    }
}

/// The `k`-th character of the marker.
fn marker_char(k: usize) -> (c: char)
    requires
        k < 7,
    ensures
        c == marker()[k as int],
{
    match k {
        0 => '-',
        1 => '-',
        2 => ' ',
        3 => 'r',
        4 => 'u',
        5 => 'n',
        _ => ':',
    }
}

/// The commands that `text` asks to replay: the remainder of each line that
/// begins with `-- run:`, in the order of the lines.
pub fn extract_runnable_lines<'a>(text: &'a str) -> (r: Vec<&'a str>)
    ensures
        r@.len() == reload_script(text@).len(),
        forall|k: int| 0 <= k < r@.len() ==> (#[trigger] r@[k])@ == reload_script(text@)[k],
        r@.len() == lines_of(text@).filter(directive_pred()).len(),
        forall|k: int|
            0 <= k < r@.len() ==> (#[trigger] r@[k])@ == directive_body(
                lines_of(text@).filter(directive_pred())[k],
            ),
{
    let n = text.unicode_len();
    let mut it = text.chars();
    let mut r: Vec<&'a str> = Vec::new();
    let mut i: usize = 0;
    let mut start: usize = 0;
    let mut prefix_ok = true;
    let mut last_cr = false;
    let ghost mut done: Seq<Seq<char>> = seq![];
    proof {
        assert(text@.skip(0) =~= text@);
        assert(text@.take(0) =~= Seq::<char>::empty());
        assert(text@.subrange(0, 0) =~= Seq::<char>::empty());
    }
    loop
        invariant
            n == text@.len(),
            start <= i <= n,
            it.obeys_prophetic_iter_laws(),
            it.remaining() == text@.skip(i as int),
            newline_pieces(text@.take(i as int)) == done.push(text@.subrange(start as int, i as int)),
            prefix_ok <==> (forall|j: int|
                start <= j < i && j < start + 7 ==> text@[j] == marker()[j - start]),
            last_cr <==> (i > start && text@[i - 1] == '\r'),
            r@.len() == directives_of(done.map_values(|x: Seq<char>| strip_cr(x))).len(),
            forall|k: int|
                0 <= k < r@.len() ==> (#[trigger] r@[k])@ == directives_of(
                    done.map_values(|x: Seq<char>| strip_cr(x)),
                )[k],
        ensures
            i == n,
            newline_pieces(text@.take(i as int)) == done.push(text@.subrange(start as int, i as int)),
        decreases n - i,
    {
        let next = it.next();
        match next {
            None => {
                assert(text@.skip(i as int).len() == 0);
                break;
            },
            Some(c) => {
                proof {
                    assert(text@[i as int] == c);
                    assert(text@.take(i as int + 1).drop_last() =~= text@.take(i as int));
                    assert(text@.skip(i as int).drop_first() =~= text@.skip(i as int + 1));
                    lemma_pieces_nonempty(text@.take(i as int));
                }
                if c == '\n' {
                    let seg = text.substring_char(start, i);
                    let ghost line = strip_cr(seg@);
                    let end: usize = if last_cr { i - 1 } else { i };
                    proof {
                        let m = done.map_values(|x: Seq<char>| strip_cr(x));
                        assert(done.push(seg@).map_values(|x: Seq<char>| strip_cr(x)) =~= m.push(
                            line,
                        ));
                        lemma_directives_push(m, line);
                        assert(line =~= text@.subrange(start as int, end as int));
                    }
                    if prefix_ok && end - start >= 7 {
                        let body = text.substring_char(start + 7, end);
                        proof {
                            assert(line.take(7) =~= marker());
                            assert(body@ =~= directive_body(line));
                        }
                        r.push(body);
                    } else {
                        proof {
                            if is_directive(line) {
                                assert(line.take(7)[0] == marker()[0]);
                                assert(forall|j: int|
                                    start <= j < start + 7 ==> text@[j] == line.take(7)[j - start]);
                            }
                        }
                    }
                    proof {
                        done = done.push(seg@);
                        assert(text@.subrange(i as int + 1, i as int + 1) =~= Seq::<char>::empty());
                    }
                    i = i + 1;
                    start = i;
                    prefix_ok = true;
                    last_cr = false;
                } else {
                    if i - start < 7 {
                        let m = marker_char(i - start);
                        if c != m {
                            prefix_ok = false;
                        }
                    }
                    last_cr = c == '\r';
                    proof {
                        assert(text@.subrange(start as int, i as int + 1) =~= text@.subrange(
                            start as int,
                            i as int,
                        ).push(c));
                    }
                    i = i + 1;
                }
            },
        }
    }
    proof {
        let seg = text@.subrange(start as int, i as int);
        let m = done.map_values(|x: Seq<char>| strip_cr(x));
        assert(text@.take(i as int) =~= text@);
        assert(newline_pieces(text@).drop_last() =~= done);
        assert(lines_of(text@) == if seg.len() == 0 { m } else { m.push(seg) });
    }
    if start < i {
        let seg = text.substring_char(start, i);
        proof {
            let m = done.map_values(|x: Seq<char>| strip_cr(x));
            lemma_directives_push(m, seg@);
        }
        if prefix_ok && i - start >= 7 {
            let body = text.substring_char(start + 7, i);
            proof {
                assert(seg@.take(7) =~= marker());
                assert(body@ =~= directive_body(seg@));
            }
            r.push(body);
        } else {
            proof {
                if is_directive(seg@) {
                    assert(forall|j: int|
                        start <= j < start + 7 ==> text@[j] == seg@.take(7)[j - start]);
                }
            }
        }
    }
    proof {
        let f = lines_of(text@).filter(directive_pred());
        assert(reload_script(text@) == f.map_values(|l: Seq<char>| directive_body(l)));
        assert(reload_script(text@).len() == f.len());
        assert forall|k: int| 0 <= k < f.len() implies reload_script(text@)[k] == directive_body(
            f[k],
        ) by {}
        assert forall|k: int| 0 <= k < r@.len() implies (#[trigger] r@[k])@ == directive_body(f[k]) by {
            assert(r@[k]@ == reload_script(text@)[k]);
        }
    }
    r
}

} // verus!
