//! The reader reads back the plain text of any path: each command letter followed by its
//! numbers, each number after a space.
use vstd::prelude::*;
use crate::svg_path::{
    NumberView, ParserState, SegmentView, SvgCommand, SvgPathError, command_arity,
    command_of_byte, finalize_command, finalize_number, initial_state, number_wf, parse_spec,
    scan, segment_wf, step, complete_if_full, separator,
};

verus! {

/// The letter of a command.
pub open spec fn command_letter(c: SvgCommand) -> u8 {
    match c {
        SvgCommand::Move(abs) => if abs { 77 } else { 109 },
        SvgCommand::Quadratic(abs) => if abs { 81 } else { 113 },
        SvgCommand::Cubic(abs) => if abs { 67 } else { 99 },
        SvgCommand::Hor(abs) => if abs { 72 } else { 104 },
        SvgCommand::Vert(abs) => if abs { 86 } else { 118 },
        SvgCommand::Line(abs) => if abs { 76 } else { 108 },
        SvgCommand::Close => 90,
    }
}

/// The characters of decimal digits.
pub open spec fn digit_text(ds: Seq<u8>) -> Seq<u8> {
    ds.map_values(|d: u8| (d + 48) as u8)
}

/// A number as text: its sign, its digits before the point, the point if it has one,
/// and its digits after the point.
pub open spec fn number_text(n: NumberView) -> Seq<u8> {
    let int_len = n.digits.len() - n.frac_digits;
    (if n.negative {
        seq![45u8]
    } else {
        Seq::empty()
    }) + digit_text(n.digits.take(int_len)) + (if n.has_dot {
        seq![46u8]
    } else {
        Seq::empty()
    }) + digit_text(n.digits.skip(int_len))
}

/// The numbers of a command, each after a space.
pub open spec fn args_text(args: Seq<NumberView>) -> Seq<u8>
    decreases args.len(),
{
    if args.len() == 0 {
        Seq::empty()
    } else {
        args_text(args.drop_last()) + seq![32u8] + number_text(args.last())
    }
}

/// A segment as text: its letter and its numbers.
pub open spec fn segment_text(g: SegmentView) -> Seq<u8> {
    seq![command_letter(g.command)] + args_text(g.args)
}

/// A path as text: its segments one after the other.
pub open spec fn path_text(segs: Seq<SegmentView>) -> Seq<u8>
    decreases segs.len(),
{
    if segs.len() == 0 {
        Seq::empty()
    } else {
        path_text(segs.drop_last()) + segment_text(segs.last())
    }
}

/// A number that can be written as text: well formed, and with a digit before the
/// point unless it is negative.
pub open spec fn writable_number(n: NumberView) -> bool {
    &&& number_wf(n)
    &&& (n.negative || n.digits.len() > n.frac_digits)
}

/// A segment that can be written: the right count of writable numbers.
pub open spec fn writable_segment(g: SegmentView) -> bool {
    &&& g.args.len() == command_arity(Some(g.command))
    &&& forall|i: int| 0 <= i < g.args.len() ==> #[trigger] writable_number(g.args[i])
}

/// Reading `bytes` from the outcome `s`.
spec fn run(s: Result<ParserState, SvgPathError>, bytes: Seq<u8>) -> Result<ParserState, SvgPathError>
    decreases bytes.len(),
{
    if bytes.len() == 0 {
        s
    } else {
        match run(s, bytes.drop_last()) {
            Ok(t) => step(t, bytes.last()),
            Err(e) => Err(e),
        }
    }
}

proof fn lemma_run_concat(s: Result<ParserState, SvgPathError>, a: Seq<u8>, b: Seq<u8>)
    ensures
        run(s, a + b) == run(run(s, a), b),
    decreases b.len(),
{
    if b.len() == 0 {
        assert(a + b =~= a);
    } else {
        assert((a + b).drop_last() =~= a + b.drop_last());
        assert((a + b).last() == b.last());
        lemma_run_concat(s, a, b.drop_last());
    }
}

proof fn lemma_run_one(s: ParserState, b: u8)
    ensures
        run(Ok(s), seq![b]) == step(s, b),
{
    assert(seq![b].drop_last() =~= Seq::<u8>::empty());
    assert(run(Ok(s), Seq::<u8>::empty()) == Ok::<ParserState, SvgPathError>(s));
    assert(seq![b].last() == b);
}

proof fn lemma_scan_is_run(bytes: Seq<u8>)
    ensures
        scan(bytes) == run(Ok(initial_state()), bytes),
    decreases bytes.len(),
{
    if bytes.len() > 0 {
        lemma_scan_is_run(bytes.drop_last());
    }
}

/// Digits extend the number being written.
proof fn lemma_read_digits(s: ParserState, p: NumberView, ds: Seq<u8>)
    requires
        s.pending == Some(p),
        forall|i: int| 0 <= i < ds.len() ==> #[trigger] ds[i] < 10,
    ensures
        run(Ok(s), digit_text(ds)) == Ok::<ParserState, SvgPathError>(
            ParserState {
                pending: Some(
                    NumberView {
                        digits: p.digits + ds,
                        frac_digits: if p.has_dot {
                            p.frac_digits + ds.len()
                        } else {
                            p.frac_digits
                        },
                        ..p
                    },
                ),
                ..s
            },
        ),
    decreases ds.len(),
{
    if ds.len() == 0 {
        assert(digit_text(ds) =~= Seq::<u8>::empty());
        assert(p.digits + ds =~= p.digits);
        assert(ParserState {
            pending: Some(NumberView { digits: p.digits + ds, frac_digits: p.frac_digits, ..p }),
            ..s
        } =~= s);
    } else {
        let dl = ds.drop_last();
        assert(digit_text(ds).drop_last() =~= digit_text(dl));
        let b = digit_text(ds).last();
        assert(b == (ds.last() + 48) as u8);
        lemma_read_digits(s, p, dl);
        assert(p.digits + dl + seq![ds.last()] =~= p.digits + ds);
        assert((p.digits + dl).push(ds.last()) =~= p.digits + ds);
    }
}

proof fn lemma_digit_text_split(ds: Seq<u8>, k: int)
    requires
        0 <= k <= ds.len(),
    ensures
        digit_text(ds) == digit_text(ds.take(k)) + digit_text(ds.skip(k)),
{
    assert(digit_text(ds) =~= digit_text(ds.take(k)) + digit_text(ds.skip(k)));
}

/// Reading a number where one may start leaves it being written.
proof fn lemma_read_number(s: ParserState, n: NumberView)
    requires
        s.pending is None,
        s.nums.len() < s.expect,
        writable_number(n),
    ensures
        run(Ok(s), number_text(n)) == Ok::<ParserState, SvgPathError>(
            ParserState { pending: Some(n), ..s },
        ),
{
    let int_len = n.digits.len() - n.frac_digits;
    let sign = if n.negative { seq![45u8] } else { Seq::<u8>::empty() };
    let dot_t = if n.has_dot { seq![46u8] } else { Seq::<u8>::empty() };
    let int_d = n.digits.take(int_len);
    let frac_d = n.digits.skip(int_len);
    assert(number_text(n) == sign + digit_text(int_d) + dot_t + digit_text(frac_d));
    // sign and integer digits
    let p0 = if n.negative {
        NumberView { negative: true, digits: Seq::empty(), has_dot: false, frac_digits: 0 }
    } else {
        NumberView { negative: false, digits: seq![n.digits[0]], has_dot: false, frac_digits: 0 }
    };
    let s1 = ParserState { pending: Some(p0), ..s };
    let rest_int = if n.negative { int_d } else { int_d.skip(1) };
    let head = if n.negative { sign } else { seq![(n.digits[0] + 48) as u8] };
    assert(sign + digit_text(int_d) =~= head + digit_text(rest_int)) by {
        if !n.negative {
            assert(digit_text(int_d) =~= seq![(n.digits[0] + 48) as u8] + digit_text(int_d.skip(1)));
        }
    }
    assert(run(Ok(s), head) == Ok::<ParserState, SvgPathError>(s1)) by {
        lemma_run_one(s, head[0]);
        assert(head =~= seq![head[0]]);
        assert(command_of_byte(head[0]) is None);
        if !n.negative {
            assert(n.digits[0] < 10);
        }
    }
    assert forall|i: int| 0 <= i < rest_int.len() implies #[trigger] rest_int[i] < 10 by {
        if n.negative {
            assert(rest_int[i] == n.digits[i]);
        } else {
            assert(rest_int[i] == n.digits[i + 1]);
        }
    }
    lemma_read_digits(s1, p0, rest_int);
    let p1 = NumberView { digits: p0.digits + rest_int, ..p0 };
    assert(p0.digits + rest_int =~= int_d) by {
        if !n.negative {
            assert(int_d =~= seq![n.digits[0]] + int_d.skip(1));
        }
    }
    let s2 = ParserState { pending: Some(p1), ..s };
    lemma_run_concat(Ok(s), head, digit_text(rest_int));
    assert(run(Ok(s), head + digit_text(rest_int)) == Ok::<ParserState, SvgPathError>(s2)) by {
        assert(ParserState { pending: Some(NumberView { digits: p0.digits + rest_int, frac_digits: p0.frac_digits, ..p0 }), ..s1 } =~= s2);
    }
    // the point
    let p2 = NumberView { has_dot: n.has_dot, ..p1 };
    let s3 = ParserState { pending: Some(p2), ..s };
    assert(run(Ok(s2), dot_t) == Ok::<ParserState, SvgPathError>(s3)) by {
        if n.has_dot {
            lemma_run_one(s2, 46u8);
        } else {
            assert(p2 =~= p1);
            assert(s3 =~= s2);
        }
    }
    lemma_run_concat(Ok(s), head + digit_text(rest_int), dot_t);
    // digits after the point
    assert forall|i: int| 0 <= i < frac_d.len() implies #[trigger] frac_d[i] < 10 by {
        assert(frac_d[i] == n.digits[i + int_len]);
    }
    lemma_read_digits(s3, p2, frac_d);
    lemma_run_concat(Ok(s), head + digit_text(rest_int) + dot_t, digit_text(frac_d));
    assert(int_d + frac_d =~= n.digits);
    let p3 = NumberView {
        digits: p2.digits + frac_d,
        frac_digits: if p2.has_dot { p2.frac_digits + frac_d.len() } else { p2.frac_digits },
        ..p2
    };
    assert(p3 =~= n);
    assert(head + digit_text(rest_int) + dot_t + digit_text(frac_d) =~= number_text(n));
    assert(ParserState { pending: Some(p3), ..s3 } =~= ParserState { pending: Some(n), ..s });
}

/// The state after some of a command's numbers: the last one is still being written.
spec fn after_args(s0: ParserState, args: Seq<NumberView>) -> ParserState {
    if args.len() == 0 {
        s0
    } else {
        ParserState { nums: args.drop_last(), pending: Some(args.last()), ..s0 }
    }
}

proof fn lemma_read_args(s0: ParserState, args: Seq<NumberView>)
    requires
        s0.nums.len() == 0,
        s0.pending is None,
        args.len() <= s0.expect,
        forall|i: int| 0 <= i < args.len() ==> #[trigger] writable_number(args[i]),
    ensures
        run(Ok(s0), args_text(args)) == Ok::<ParserState, SvgPathError>(after_args(s0, args)),
    decreases args.len(),
{
    if args.len() == 0 {
    } else {
        let a = args.drop_last();
        let x = args.last();
        assert forall|i: int| 0 <= i < a.len() implies #[trigger] writable_number(a[i]) by {
            assert(a[i] == args[i]);
        }
        lemma_read_args(s0, a);
        let sa = after_args(s0, a);
        lemma_run_concat(Ok(s0), args_text(a), seq![32u8]);
        lemma_run_concat(Ok(s0), args_text(a) + seq![32u8], number_text(x));
        let b = ParserState { nums: a, pending: None, ..s0 };
        assert(run(Ok(sa), seq![32u8]) == Ok::<ParserState, SvgPathError>(b)) by {
            lemma_run_one(sa, 32u8);
            if a.len() == 0 {
                assert(a =~= s0.nums);
                assert(b =~= s0);
            } else {
                assert(a.drop_last().push(a.last()) =~= a);
                assert(finalize_number(sa) =~= b);
            }
        }
        assert(writable_number(x)) by {
            assert(x == args[args.len() - 1]);
        }
        lemma_read_number(b, x);
        assert(ParserState { pending: Some(x), ..b } =~= after_args(s0, args));
    }
}

/// The state after the text of some segments: the last segment is still open.
spec fn after_path(segs: Seq<SegmentView>) -> ParserState {
    if segs.len() == 0 {
        initial_state()
    } else {
        let g = segs.last();
        after_args(
            ParserState {
                cmd: Some(g.command),
                expect: command_arity(Some(g.command)),
                chain: false,
                nums: Seq::empty(),
                pending: None,
                out: segs.drop_last(),
            },
            g.args,
        )
    }
}

proof fn lemma_finalize_after_path(segs: Seq<SegmentView>)
    requires
        forall|i: int| 0 <= i < segs.len() ==> #[trigger] writable_segment(segs[i]),
    ensures
        finalize_command(after_path(segs)) is Ok,
        finalize_command(after_path(segs)).unwrap().out == segs,
        segs.len() > 0 ==> finalize_command(after_path(segs)).unwrap().nums.len() == 0,
{
    if segs.len() == 0 {
    } else {
        let g = segs.last();
        assert(writable_segment(g)) by {
            assert(g == segs[segs.len() - 1]);
        }
        let s = after_path(segs);
        let s1 = finalize_number(s);
        if g.args.len() > 0 {
            assert(g.args.drop_last().push(g.args.last()) =~= g.args);
        }
        assert(s1.nums =~= g.args);
        assert(s1.expect == s1.nums.len());
        assert(segs.drop_last().push(SegmentView { command: g.command, args: s1.nums }) =~= segs) by {
            assert(SegmentView { command: g.command, args: s1.nums } =~= g);
        }
    }
}

proof fn lemma_read_path(segs: Seq<SegmentView>)
    requires
        forall|i: int| 0 <= i < segs.len() ==> #[trigger] writable_segment(segs[i]),
    ensures
        scan(path_text(segs)) == Ok::<ParserState, SvgPathError>(after_path(segs)),
    decreases segs.len(),
{
    if segs.len() == 0 {
    } else {
        let prev = segs.drop_last();
        let g = segs.last();
        assert forall|i: int| 0 <= i < prev.len() implies #[trigger] writable_segment(prev[i]) by {
            assert(prev[i] == segs[i]);
        }
        assert(writable_segment(g)) by {
            assert(g == segs[segs.len() - 1]);
        }
        lemma_read_path(prev);
        lemma_scan_is_run(path_text(prev));
        lemma_scan_is_run(path_text(segs));
        lemma_run_concat(Ok(initial_state()), path_text(prev), segment_text(g));
        lemma_run_concat(run(Ok(initial_state()), path_text(prev)), seq![command_letter(g.command)], args_text(g.args));
        let t = ParserState {
            cmd: Some(g.command),
            expect: command_arity(Some(g.command)),
            chain: false,
            nums: Seq::empty(),
            pending: None,
            out: prev,
        };
        assert(run(Ok(after_path(prev)), seq![command_letter(g.command)]) == Ok::<ParserState, SvgPathError>(t)) by {
            lemma_run_one(after_path(prev), command_letter(g.command));
            assert(command_of_byte(command_letter(g.command)) == Some(g.command));
            lemma_finalize_after_path(prev);
            let f = finalize_command(after_path(prev)).unwrap();
            assert(f.out == prev);
            if prev.len() == 0 {
                assert(f.nums =~= Seq::<NumberView>::empty());
            }
            assert(ParserState { chain: false, expect: command_arity(Some(g.command)), cmd: Some(g.command), ..f } =~= t);
        }
        lemma_read_args(t, g.args);
        assert(segment_text(g) == seq![command_letter(g.command)] + args_text(g.args));
    }
}

/// The reader reads back the text of any path whose segments have the right count of
/// writable numbers: `parse_spec(path_text(segs)) == Ok(segs)`.
pub proof fn lemma_reads_back_path_text(segs: Seq<SegmentView>)
    requires
        forall|i: int| 0 <= i < segs.len() ==> #[trigger] writable_segment(segs[i]),
    ensures
        parse_spec(path_text(segs)) == Ok::<Seq<SegmentView>, SvgPathError>(segs),
{
    lemma_read_path(segs);
    lemma_finalize_after_path(segs);
}

/// The state once a command's numbers are all read and a separator came: the command is
/// emitted and may repeat.
spec fn repeat_state(t: ParserState, c: SvgCommand, a: Seq<NumberView>) -> ParserState {
    ParserState { out: t.out.push(SegmentView { command: c, args: a }), chain: true, ..t }
}

proof fn lemma_read_repeat(t: ParserState, c: SvgCommand, a: Seq<NumberView>, b: Seq<NumberView>)
    requires
        t.cmd == Some(c),
        t.expect == command_arity(Some(c)),
        !t.chain,
        t.nums.len() == 0,
        t.pending is None,
        a.len() == t.expect,
        a.len() > 0,
        1 <= b.len() <= t.expect,
        forall|i: int| 0 <= i < b.len() ==> #[trigger] writable_number(b[i]),
    ensures
        run(Ok(after_args(t, a)), args_text(b)) == Ok::<ParserState, SvgPathError>(
            after_args(repeat_state(t, c, a), b),
        ),
    decreases b.len(),
{
    let q = repeat_state(t, c, a);
    let p = after_args(t, a);
    let x = b.last();
    assert(writable_number(x)) by {
        assert(x == b[b.len() - 1]);
    }
    if b.len() == 1 {
        assert(args_text(b.drop_last()) =~= Seq::<u8>::empty());
        assert(args_text(b) =~= seq![32u8] + number_text(x));
        lemma_run_concat(Ok(p), seq![32u8], number_text(x));
        lemma_run_one(p, 32u8);
        assert(a.drop_last().push(a.last()) =~= a);
        assert(finalize_number(p).nums =~= a);
        assert(separator(p) == Ok::<ParserState, SvgPathError>(q)) by {
            let s1 = finalize_number(p);
            assert(ParserState {
                out: s1.out.push(SegmentView { command: c, args: s1.nums }),
                nums: Seq::empty(),
                chain: true,
                ..s1
            } =~= q);
        }
        lemma_read_number(q, x);
        assert(ParserState { pending: Some(x), ..q } =~= after_args(q, b));
        assert(b.drop_last() =~= Seq::<NumberView>::empty());
    } else {
        let bp = b.drop_last();
        assert forall|i: int| 0 <= i < bp.len() implies #[trigger] writable_number(bp[i]) by {
            assert(bp[i] == b[i]);
        }
        lemma_read_repeat(t, c, a, bp);
        let sa = after_args(q, bp);
        lemma_run_concat(Ok(p), args_text(bp), seq![32u8]);
        lemma_run_concat(Ok(p), args_text(bp) + seq![32u8], number_text(x));
        let bb = ParserState { nums: bp, pending: None, ..q };
        assert(run(Ok(sa), seq![32u8]) == Ok::<ParserState, SvgPathError>(bb)) by {
            lemma_run_one(sa, 32u8);
            assert(bp.drop_last().push(bp.last()) =~= bp);
            assert(finalize_number(sa) =~= bb);
        }
        lemma_read_number(bb, x);
        assert(ParserState { pending: Some(x), ..bb } =~= after_args(q, b));
    }
}

/// An implicit repeat keeps its command: the text of a command `c` with its numbers `a`,
/// followed by further numbers `b` without a letter, reads as two segments of the same
/// command `c` (absolute or relative alike), with `a` and with `b`.
pub proof fn lemma_implicit_repeat_keeps_command(c: SvgCommand, a: Seq<NumberView>, b: Seq<NumberView>)
    requires
        command_arity(Some(c)) > 0,
        a.len() == command_arity(Some(c)),
        b.len() == command_arity(Some(c)),
        forall|i: int| 0 <= i < a.len() ==> #[trigger] writable_number(a[i]),
        forall|i: int| 0 <= i < b.len() ==> #[trigger] writable_number(b[i]),
    ensures
        parse_spec(segment_text(SegmentView { command: c, args: a }) + args_text(b))
            == Ok::<Seq<SegmentView>, SvgPathError>(
            seq![SegmentView { command: c, args: a }, SegmentView { command: c, args: b }],
        ),
{
    let g = SegmentView { command: c, args: a };
    let segs = seq![g];
    assert(writable_segment(g));
    assert forall|i: int| 0 <= i < segs.len() implies #[trigger] writable_segment(segs[i]) by {
        assert(segs[i] == g);
    }
    lemma_read_path(segs);
    assert(segs.drop_last() =~= Seq::<SegmentView>::empty());
    assert(path_text(segs.drop_last()) =~= Seq::<u8>::empty());
    assert(segs.last() == g);
    assert(path_text(segs) =~= segment_text(g));
    let t = ParserState {
        cmd: Some(c),
        expect: command_arity(Some(c)),
        chain: false,
        nums: Seq::empty(),
        pending: None,
        out: Seq::empty(),
    };
    assert(after_path(segs) == after_args(t, a));
    lemma_scan_is_run(segment_text(g));
    lemma_scan_is_run(segment_text(g) + args_text(b));
    lemma_run_concat(Ok(initial_state()), segment_text(g), args_text(b));
    lemma_read_repeat(t, c, a, b);
    let q = repeat_state(t, c, a);
    let f = after_args(q, b);
    let f1 = finalize_number(f);
    assert(b.drop_last().push(b.last()) =~= b);
    assert(f1.nums =~= b);
    assert(q.out =~= seq![g]);
    assert(seq![g].push(SegmentView { command: c, args: b }) =~= seq![g, SegmentView { command: c, args: b }]);
}

} // verus!
