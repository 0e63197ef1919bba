//! Laws of the SVG path reader.
use vstd::prelude::*;
use crate::svg_path::{
    ParserState, SvgPathError, command_arity, finalize_command, finalize_number, is_path_byte,
    is_separator, parse_spec, scan, segment_wf, segments_wf, state_wf, step, initial_state,
    lemma_scan_error_persists,
};

verus! {

proof fn lemma_finalize_command_wf(s: ParserState)
    requires
        state_wf(s),
    ensures
        finalize_command(s) matches Ok(t) ==> state_wf(t),
{
    let s1 = finalize_number(s);
    assert(state_wf(s1) || s.pending is Some);
    if let Ok(t) = finalize_command(s) {
        if !(s1.chain && s1.nums.len() == 0) {
            assert forall|i: int| 0 <= i < t.out.len() implies #[trigger] segment_wf(t.out[i]) by {
                if i < s1.out.len() {
                    assert(t.out[i] == s1.out[i]);
                }
            }
        }
    }
}

proof fn lemma_step_wf(s: ParserState, b: u8)
    requires
        state_wf(s),
    ensures
        step(s, b) matches Ok(t) ==> state_wf(t),
{
    lemma_finalize_command_wf(s);
    lemma_finalize_command_wf(finalize_number(s));
    if let Some(n) = s.pending {
        if 48 <= b <= 57 {
            let m = n.digits.push((b - 48) as u8);
            assert forall|i: int| 0 <= i < m.len() implies #[trigger] m[i] < 10 by {
                if i < n.digits.len() {
                    assert(m[i] == n.digits[i]);
                }
            }
        }
    }
}

proof fn lemma_scan_wf(bytes: Seq<u8>)
    ensures
        scan(bytes) matches Ok(s) ==> state_wf(s),
    decreases bytes.len(),
{
    if bytes.len() > 0 {
        lemma_scan_wf(bytes.drop_last());
        if let Ok(s) = scan(bytes.drop_last()) {
            lemma_step_wf(s, bytes.last());
        }
    }
}

/// Every segment that a successful read gives has exactly as many numbers as its
/// command takes, and every number is a sequence of decimal digits with at most as many
/// digits after the point as it has digits.
pub proof fn lemma_segments_have_their_arity(bytes: Seq<u8>)
    ensures
        parse_spec(bytes) matches Ok(out) ==> segments_wf(out),
        parse_spec(bytes) matches Ok(out) ==> forall|i: int|
            0 <= i < out.len() ==> #[trigger] out[i].args.len() == command_arity(
                Some(out[i].command),
            ),
{
    lemma_scan_wf(bytes);
    if let Ok(s) = scan(bytes) {
        lemma_finalize_command_wf(s);
        if let Ok(out) = parse_spec(bytes) {
            assert forall|i: int| 0 <= i < out.len() implies #[trigger] out[i].args.len()
                == command_arity(Some(out[i].command)) by {
                assert(segment_wf(out[i]));
            }
        }
    }
}

/// A state with no command yet and nothing pending: such states differ at most in `chain`.
spec fn fresh(s: ParserState) -> bool {
    &&& s.cmd is None
    &&& s.expect == 0
    &&& s.nums.len() == 0
    &&& s.pending is None
    &&& s.out.len() == 0
}

spec fn similar(a: ParserState, b: ParserState) -> bool {
    a == b || (fresh(a) && fresh(b))
}

spec fn outcome_similar(x: Result<ParserState, SvgPathError>, y: Result<ParserState, SvgPathError>) -> bool {
    match (x, y) {
        (Ok(a), Ok(b)) => similar(a, b),
        (Err(e1), Err(e2)) => e1 == e2,
        _ => false,
    }
}

proof fn lemma_fresh_finalize(a: ParserState, b: ParserState)
    requires
        fresh(a),
        fresh(b),
    ensures
        finalize_command(a) == finalize_command(b),
        finalize_command(a) is Ok,
{
    assert(a.nums =~= b.nums);
    assert(a.out =~= b.out);
    let ta = ParserState { chain: true, ..a };
    let tb = ParserState { chain: true, ..b };
    assert(ta =~= tb);
    if a.chain {
        assert(finalize_command(a) == Ok::<ParserState, SvgPathError>(ta));
    } else {
        assert(finalize_command(a) == Ok::<ParserState, SvgPathError>(ParserState { nums: Seq::empty(), ..ta }));
        assert(ParserState { nums: Seq::empty(), ..ta } =~= ta);
    }
    if b.chain {
        assert(finalize_command(b) == Ok::<ParserState, SvgPathError>(tb));
    } else {
        assert(finalize_command(b) == Ok::<ParserState, SvgPathError>(ParserState { nums: Seq::empty(), ..tb }));
        assert(ParserState { nums: Seq::empty(), ..tb } =~= tb);
    }
}

proof fn lemma_fresh_step(a: ParserState, b: ParserState, x: u8)
    requires
        fresh(a),
        fresh(b),
    ensures
        step(a, x) == step(b, x),
{
    lemma_fresh_finalize(a, b);
}

proof fn lemma_leading_separator_scan(c: u8, bytes: Seq<u8>)
    requires
        is_separator(c),
    ensures
        outcome_similar(scan(seq![c] + bytes), scan(bytes)),
    decreases bytes.len(),
{
    let full = seq![c] + bytes;
    if bytes.len() == 0 {
        assert(full =~= seq![c]);
        assert(full.drop_last() =~= Seq::<u8>::empty());
        lemma_fresh_finalize(initial_state(), initial_state());
    } else {
        assert(full.drop_last() =~= seq![c] + bytes.drop_last());
        assert(full.last() == bytes.last());
        lemma_leading_separator_scan(c, bytes.drop_last());
        match (scan(full.drop_last()), scan(bytes.drop_last())) {
            (Ok(a), Ok(b)) => {
                if a != b {
                    lemma_fresh_step(a, b, bytes.last());
                }
                let ra = step(a, bytes.last());
                if let Ok(t) = ra {
                    assert(similar(t, t));
                }
            },
            _ => {},
        }
    }
}

/// A separator at the start of a path changes nothing: reading `c` followed by the bytes
/// gives what reading the bytes gives.
pub proof fn lemma_leading_separator_ignored(c: u8, bytes: Seq<u8>)
    requires
        is_separator(c),
    ensures
        parse_spec(seq![c] + bytes) == parse_spec(bytes),
{
    lemma_leading_separator_scan(c, bytes);
    if let (Ok(a), Ok(b)) = (scan(seq![c] + bytes), scan(bytes)) {
        if a != b {
            lemma_fresh_finalize(a, b);
        }
    }
}

/// A separator at the end of a path changes nothing.
pub proof fn lemma_trailing_separator_ignored(bytes: Seq<u8>, c: u8)
    requires
        is_separator(c),
    ensures
        parse_spec(bytes.push(c)) == parse_spec(bytes),
{
    let full = bytes.push(c);
    assert(full.drop_last() =~= bytes);
    if let Ok(s) = scan(bytes) {
        let s1 = finalize_number(s);
        assert(finalize_number(s1) == s1);
        if s1.expect == s1.nums.len() {
            if let Ok(t) = finalize_command(s1) {
                assert(t.chain && t.nums.len() == 0);
                assert(finalize_number(t) == t);
            }
        }
    }
}

proof fn lemma_scan_update_separator(bytes: Seq<u8>, i: int, c: u8)
    requires
        0 <= i < bytes.len(),
        is_separator(bytes[i]),
        is_separator(c),
    ensures
        scan(bytes.update(i, c)) == scan(bytes),
    decreases bytes.len(),
{
    let u = bytes.update(i, c);
    if i == bytes.len() - 1 {
        assert(u.drop_last() =~= bytes.drop_last());
    } else {
        assert(u.drop_last() =~= bytes.drop_last().update(i, c));
        lemma_scan_update_separator(bytes.drop_last(), i, c);
        assert(u.last() == bytes.last());
    }
}

/// Any separator may stand for any other: replacing one by another in a path does not
/// change what is read.
pub proof fn lemma_separators_interchangeable(bytes: Seq<u8>, i: int, c: u8)
    requires
        0 <= i < bytes.len(),
        is_separator(bytes[i]),
        is_separator(c),
    ensures
        parse_spec(bytes.update(i, c)) == parse_spec(bytes),
{
    lemma_scan_update_separator(bytes, i, c);
}

/// A path that holds a byte outside the path language is refused.
pub proof fn lemma_foreign_byte_refused(bytes: Seq<u8>, i: int)
    requires
        0 <= i < bytes.len(),
        !is_path_byte(bytes[i]),
    ensures
        parse_spec(bytes) is Err,
{
    let p = bytes.take(i + 1);
    assert(p.drop_last() =~= bytes.take(i));
    assert(p.last() == bytes[i]);
    assert(scan(p) is Err);
    lemma_scan_error_persists(bytes, i + 1);
}

} // verus!
