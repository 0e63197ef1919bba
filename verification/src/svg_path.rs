//! A reader for the SVG path-data mini language, as used by the icon atlas.
//!
//! The reader is a byte-level state machine. Numbers are kept exactly, as the
//! digits that were written, so that the conversion to floating point can
//! happen outside the verified code in exactly the order that the digits came.
use vstd::prelude::*;

verus! {

/// A path command; the flag is `true` for the absolute (upper-case) form.
#[derive(Clone, Copy, Debug, PartialEq, Eq)]
pub enum SvgCommand {
    Move(bool),
    Hor(bool),
    Vert(bool),
    Line(bool),
    Cubic(bool),
    Quadratic(bool),
    Close,
}

/// How many numbers a command takes; `None` stands for "no command yet", which takes none.
pub open spec fn command_arity(cmd: Option<SvgCommand>) -> nat {
    match cmd {
        None => 0,
        Some(SvgCommand::Move(_)) => 2,
        Some(SvgCommand::Hor(_)) => 1,
        Some(SvgCommand::Vert(_)) => 1,
        Some(SvgCommand::Line(_)) => 2,
        Some(SvgCommand::Cubic(_)) => 6,
        Some(SvgCommand::Quadratic(_)) => 4,
        Some(SvgCommand::Close) => 0,
    }
}

/// The number of arguments that `cmd` takes.
pub fn arity(cmd: SvgCommand) -> (n: usize)
    ensures
        n == command_arity(Some(cmd)),
{
    match cmd {
        SvgCommand::Move(_) => 2,
        SvgCommand::Hor(_) => 1,
        SvgCommand::Vert(_) => 1,
        SvgCommand::Line(_) => 2,
        SvgCommand::Cubic(_) => 6,
        SvgCommand::Quadratic(_) => 4,
        SvgCommand::Close => 0,
    }
}

} // verus!

verus! {

/// Why a path could not be read.
#[derive(Clone, Copy, Debug, PartialEq, Eq)]
pub enum SvgPathError {
    /// A `-` where the current command takes no more numbers.
    UnexpectedMinus,
    /// A digit where the current command takes no more numbers.
    UnexpectedDigit,
    /// A `.` outside a number, or a second `.` in one number.
    UnexpectedDot,
    /// A command ended with another count of numbers than it takes.
    WrongArgumentCount { command: Option<SvgCommand>, expected: usize, got: usize },
    /// A byte that is no part of the path language.
    UnexpectedCharacter(u8),
}

/// A number as it was written: its sign, its decimal digits (each below 10), whether a
/// `.` was seen and how many of the digits came after it.
///
/// Its value is `(if negative { -1 } else { 1 }) * digits / 10^frac_digits`, the digits
/// read as one decimal integer.
#[derive(Clone, Debug)]
pub struct SvgNumber {
    pub negative: bool,
    pub digits: Vec<u8>,
    pub has_dot: bool,
    pub frac_digits: usize,
}

/// The mathematical content of an [`SvgNumber`].
#[verifier::ext_equal]
pub struct NumberView {
    pub negative: bool,
    pub digits: Seq<u8>,
    pub has_dot: bool,
    pub frac_digits: nat,
}

impl View for SvgNumber {
    type V = NumberView;

    open spec fn view(&self) -> NumberView {
        NumberView {
            negative: self.negative,
            digits: self.digits@,
            has_dot: self.has_dot,
            frac_digits: self.frac_digits as nat,
        }
    }
}

/// One complete command with the numbers that were given to it.
#[derive(Clone, Debug)]
pub struct PathSegment {
    pub command: SvgCommand,
    pub args: Vec<SvgNumber>,
}

/// The mathematical content of a [`PathSegment`].
#[verifier::ext_equal]
pub struct SegmentView {
    pub command: SvgCommand,
    pub args: Seq<NumberView>,
}

pub open spec fn numbers_view(s: Seq<SvgNumber>) -> Seq<NumberView> {
    s.map_values(|n: SvgNumber| n@)
}

pub open spec fn segments_view(s: Seq<PathSegment>) -> Seq<SegmentView> {
    s.map_values(|g: PathSegment| g@)
}

impl View for PathSegment {
    type V = SegmentView;

    open spec fn view(&self) -> SegmentView {
        SegmentView { command: self.command, args: numbers_view(self.args@) }
    }
}

/// The state of the reader between two bytes.
///
/// `nums` are the numbers already complete for the current command, `pending` the
/// number being written, `chain` whether the last command was just completed (so that
/// its numbers may be repeated without repeating the letter), `out` the segments read.
#[verifier::ext_equal]
pub struct ParserState {
    pub cmd: Option<SvgCommand>,
    pub expect: nat,
    pub chain: bool,
    pub nums: Seq<NumberView>,
    pub pending: Option<NumberView>,
    pub out: Seq<SegmentView>,
}

pub open spec fn initial_state() -> ParserState {
    ParserState {
        cmd: None,
        expect: 0,
        chain: false,
        nums: Seq::empty(),
        pending: None,
        out: Seq::empty(),
    }
}

/// Moves the number being written, if any, to the complete ones.
pub open spec fn finalize_number(s: ParserState) -> ParserState {
    match s.pending {
        Some(n) => ParserState { nums: s.nums.push(n), pending: None, ..s },
        None => s,
    }
}

/// Completes the current command: a chained command with no new numbers is left as it
/// is; otherwise the count of numbers must be the command's, and the command is emitted.
pub open spec fn finalize_command(s: ParserState) -> Result<ParserState, SvgPathError> {
    let s1 = finalize_number(s);
    if s1.chain && s1.nums.len() == 0 {
        Ok(s1)
    } else if s1.expect != s1.nums.len() {
        Err(
            SvgPathError::WrongArgumentCount {
                command: s1.cmd,
                expected: s1.expect as usize,
                got: s1.nums.len() as usize,
            },
        )
    } else {
        Ok(
            ParserState {
                out: match s1.cmd {
                    Some(c) => s1.out.push(SegmentView { command: c, args: s1.nums }),
                    None => s1.out,
                },
                nums: Seq::empty(),
                chain: true,
                ..s1
            },
        )
    }
}

/// A command letter: the current command is completed and `c` becomes the current one.
pub open spec fn next_command(s: ParserState, c: SvgCommand) -> Result<ParserState, SvgPathError> {
    match finalize_command(s) {
        Ok(s1) => Ok(
            ParserState { chain: false, expect: command_arity(Some(c)), cmd: Some(c), ..s1 },
        ),
        Err(e) => Err(e),
    }
}

/// Completes the current command first when all its numbers are there.
pub open spec fn complete_if_full(s: ParserState) -> Result<ParserState, SvgPathError> {
    if s.expect == s.nums.len() {
        finalize_command(s)
    } else {
        Ok(s)
    }
}

/// A `-`: a new negative number starts; a number being written is dropped.
pub open spec fn minus(s: ParserState) -> Result<ParserState, SvgPathError> {
    match complete_if_full(s) {
        Ok(s1) => if s1.expect == 0 {
            Err(SvgPathError::UnexpectedMinus)
        } else {
            Ok(
                ParserState {
                    pending: Some(
                        NumberView {
                            negative: true,
                            digits: Seq::empty(),
                            has_dot: false,
                            frac_digits: 0,
                        },
                    ),
                    ..s1
                },
            )
        },
        Err(e) => Err(e),
    }
}

/// A digit `d` (its value, below 10): it extends the number being written, or starts one.
pub open spec fn digit(s: ParserState, d: u8) -> Result<ParserState, SvgPathError> {
    match s.pending {
        Some(n) => Ok(
            ParserState {
                pending: Some(
                    NumberView {
                        digits: n.digits.push(d),
                        frac_digits: if n.has_dot {
                            n.frac_digits + 1
                        } else {
                            n.frac_digits
                        },
                        ..n
                    },
                ),
                ..s
            },
        ),
        None => match complete_if_full(s) {
            Ok(s1) => if s1.expect == 0 {
                Err(SvgPathError::UnexpectedDigit)
            } else {
                Ok(
                    ParserState {
                        pending: Some(
                            NumberView {
                                negative: false,
                                digits: seq![d],
                                has_dot: false,
                                frac_digits: 0,
                            },
                        ),
                        ..s1
                    },
                )
            },
            Err(e) => Err(e),
        },
    }
}

/// A `.`: allowed once inside a number.
pub open spec fn dot(s: ParserState) -> Result<ParserState, SvgPathError> {
    match s.pending {
        Some(n) => if n.has_dot {
            Err(SvgPathError::UnexpectedDot)
        } else {
            Ok(ParserState { pending: Some(NumberView { has_dot: true, ..n }), ..s })
        },
        None => Err(SvgPathError::UnexpectedDot),
    }
}

/// A separator ends the number being written, and the command when it is full.
pub open spec fn separator(s: ParserState) -> Result<ParserState, SvgPathError> {
    complete_if_full(finalize_number(s))
}

/// The command that a letter stands for.
pub open spec fn command_of_byte(b: u8) -> Option<SvgCommand> {
    if b == 77 {
        Some(SvgCommand::Move(true))
    } else if b == 109 {
        Some(SvgCommand::Move(false))
    } else if b == 81 {
        Some(SvgCommand::Quadratic(true))
    } else if b == 113 {
        Some(SvgCommand::Quadratic(false))
    } else if b == 67 {
        Some(SvgCommand::Cubic(true))
    } else if b == 99 {
        Some(SvgCommand::Cubic(false))
    } else if b == 72 {
        Some(SvgCommand::Hor(true))
    } else if b == 104 {
        Some(SvgCommand::Hor(false))
    } else if b == 86 {
        Some(SvgCommand::Vert(true))
    } else if b == 118 {
        Some(SvgCommand::Vert(false))
    } else if b == 76 {
        Some(SvgCommand::Line(true))
    } else if b == 108 {
        Some(SvgCommand::Line(false))
    } else if b == 90 || b == 122 {
        Some(SvgCommand::Close)
    } else {
        None
    }
}

/// `,`, space, carriage return, line feed and tab.
pub open spec fn is_separator(b: u8) -> bool {
    b == 44 || b == 32 || b == 13 || b == 10 || b == 9
}

/// The bytes that the path language uses.
pub open spec fn is_path_byte(b: u8) -> bool {
    command_of_byte(b) is Some || b == 45 || (48 <= b <= 57) || b == 46 || is_separator(b)
}

/// What one byte does to the state.
pub open spec fn step(s: ParserState, b: u8) -> Result<ParserState, SvgPathError> {
    match command_of_byte(b) {
        Some(c) => next_command(s, c),
        None => if b == 45 {
            minus(s)
        } else if 48 <= b <= 57 {
            digit(s, (b - 48) as u8)
        } else if b == 46 {
            dot(s)
        } else if is_separator(b) {
            separator(s)
        } else {
            Err(SvgPathError::UnexpectedCharacter(b))
        },
    }
}

/// The state after the bytes, or the first error met.
pub open spec fn scan(bytes: Seq<u8>) -> Result<ParserState, SvgPathError>
    decreases bytes.len(),
{
    if bytes.len() == 0 {
        Ok(initial_state())
    } else {
        match scan(bytes.drop_last()) {
            Ok(s) => step(s, bytes.last()),
            Err(e) => Err(e),
        }
    }
}

/// What reading a whole path gives: the segments, once the last command is completed.
pub open spec fn parse_spec(bytes: Seq<u8>) -> Result<Seq<SegmentView>, SvgPathError> {
    match scan(bytes) {
        Ok(s) => match finalize_command(s) {
            Ok(f) => Ok(f.out),
            Err(e) => Err(e),
        },
        Err(e) => Err(e),
    }
}

pub open spec fn number_wf(n: NumberView) -> bool {
    &&& forall|i: int| 0 <= i < n.digits.len() ==> #[trigger] n.digits[i] < 10
    &&& n.frac_digits <= n.digits.len()
    &&& !n.has_dot ==> n.frac_digits == 0
}

pub open spec fn numbers_wf(s: Seq<NumberView>) -> bool {
    forall|i: int| 0 <= i < s.len() ==> #[trigger] number_wf(s[i])
}

/// A segment has exactly as many numbers as its command takes, each well formed.
pub open spec fn segment_wf(g: SegmentView) -> bool {
    &&& g.args.len() == command_arity(Some(g.command))
    &&& numbers_wf(g.args)
}

pub open spec fn segments_wf(s: Seq<SegmentView>) -> bool {
    forall|i: int| 0 <= i < s.len() ==> #[trigger] segment_wf(s[i])
}

pub open spec fn state_wf(s: ParserState) -> bool {
    &&& s.expect == command_arity(s.cmd)
    &&& s.nums.len() <= s.expect
    &&& s.pending is Some ==> s.nums.len() < s.expect
    &&& numbers_wf(s.nums)
    &&& (s.pending matches Some(n) ==> number_wf(n))
    &&& segments_wf(s.out)
}

} // verus!

verus! {

/// The reader's state, the executable form of [`ParserState`].
struct PathParser {
    cmd: Option<SvgCommand>,
    expect_nums: usize,
    chain: bool,
    nums: Vec<SvgNumber>,
    num_state: Option<SvgNumber>,
    out: Vec<PathSegment>,
}

pub open spec fn pending_view(p: Option<SvgNumber>) -> Option<NumberView> {
    match p {
        Some(n) => Some(n@),
        None => None,
    }
}

impl View for PathParser {
    type V = ParserState;

    closed spec fn view(&self) -> ParserState {
        ParserState {
            cmd: self.cmd,
            expect: self.expect_nums as nat,
            chain: self.chain,
            nums: numbers_view(self.nums@),
            pending: pending_view(self.num_state),
            out: segments_view(self.out@),
        }
    }
}

impl PathParser {
    closed spec fn wf(&self) -> bool {
        state_wf(self@)
    }

    fn new() -> (p: Self)
        ensures
            p@ == initial_state(),
            p.wf(),
    {
        let p = PathParser {
            cmd: None,
            expect_nums: 0,
            chain: false,
            nums: Vec::new(),
            num_state: None,
            out: Vec::new(),
        };
        assert(numbers_view(p.nums@) =~= Seq::<NumberView>::empty());
        assert(segments_view(p.out@) =~= Seq::<SegmentView>::empty());
        p
    }

    fn finalize_num(&mut self)
        requires
            old(self).wf(),
        ensures
            final(self)@ == finalize_number(old(self)@),
            state_wf(final(self)@),
    {
        match self.num_state.take() {
            Some(n) => {
                let ghost nv = n@;
                let ghost old_nums = self.nums@;
                self.nums.push(n);
                assert(numbers_view(self.nums@) =~= numbers_view(old_nums).push(nv));
            },
            None => {},
        }
    }

    fn finalize_cmd(&mut self) -> (r: Result<(), SvgPathError>)
        requires
            old(self).wf(),
        ensures
            match finalize_command(old(self)@) {
                Ok(t) => r is Ok && final(self)@ == t && final(self).wf(),
                Err(e) => r == Err::<(), SvgPathError>(e),
            },
    {
        self.finalize_num();
        if self.chain && self.nums.len() == 0 {
            return Ok(());
        }
        if self.expect_nums != self.nums.len() {
            return Err(
                SvgPathError::WrongArgumentCount {
                    command: self.cmd,
                    expected: self.expect_nums,
                    got: self.nums.len(),
                },
            );
        }
        let mut nums: Vec<SvgNumber> = Vec::new();
        std::mem::swap(&mut nums, &mut self.nums);
        assert(numbers_view(self.nums@) =~= Seq::<NumberView>::empty());
        match self.cmd {
            Some(c) => {
                let ghost old_out = self.out@;
                let seg = PathSegment { command: c, args: nums };
                self.out.push(seg);
                assert(segments_view(self.out@) =~= segments_view(old_out).push(seg@));
            },
            None => {},
        }
        self.chain = true;
        Ok(())
    }

    fn complete_if_full(&mut self) -> (r: Result<(), SvgPathError>)
        requires
            old(self).wf(),
        ensures
            match complete_if_full(old(self)@) {
                Ok(t) => r is Ok && final(self)@ == t && final(self).wf(),
                Err(e) => r == Err::<(), SvgPathError>(e),
            },
    {
        if self.expect_nums == self.nums.len() {
            self.finalize_cmd()
        } else {
            Ok(())
        }
    }

    fn next_cmd(&mut self, c: SvgCommand) -> (r: Result<(), SvgPathError>)
        requires
            old(self).wf(),
        ensures
            match next_command(old(self)@, c) {
                Ok(t) => r is Ok && final(self)@ == t && final(self).wf(),
                Err(e) => r == Err::<(), SvgPathError>(e),
            },
    {
        self.finalize_cmd()?;
        self.chain = false;
        self.expect_nums = arity(c);
        self.cmd = Some(c);
        Ok(())
    }

    fn add_min(&mut self) -> (r: Result<(), SvgPathError>)
        requires
            old(self).wf(),
        ensures
            match minus(old(self)@) {
                Ok(t) => r is Ok && final(self)@ == t && final(self).wf(),
                Err(e) => r == Err::<(), SvgPathError>(e),
            },
    {
        self.complete_if_full()?;
        if self.expect_nums == 0 {
            return Err(SvgPathError::UnexpectedMinus);
        }
        let n = SvgNumber { negative: true, digits: Vec::new(), has_dot: false, frac_digits: 0 };
        assert(n@ =~= NumberView {
            negative: true,
            digits: Seq::empty(),
            has_dot: false,
            frac_digits: 0,
        });
        self.num_state = Some(n);
        Ok(())
    }

    fn add_digit(&mut self, d: u8) -> (r: Result<(), SvgPathError>)
        requires
            old(self).wf(),
            d < 10,
        ensures
            match digit(old(self)@, d) {
                Ok(t) => r is Ok && final(self)@ == t && final(self).wf(),
                Err(e) => r == Err::<(), SvgPathError>(e),
            },
    {
        match self.num_state.take() {
            Some(mut n) => {
                let ghost nv = n@;
                assert(number_wf(nv));
                n.digits.push(d);
                assert(n.frac_digits <= n.digits.len());
                if n.has_dot {
                    n.frac_digits = n.frac_digits + 1;
                }
                assert(n@ =~= NumberView {
                    digits: nv.digits.push(d),
                    frac_digits: if nv.has_dot {
                        nv.frac_digits + 1
                    } else {
                        nv.frac_digits
                    },
                    ..nv
                });
                self.num_state = Some(n);
                Ok(())
            },
            None => {
                self.complete_if_full()?;
                if self.expect_nums == 0 {
                    return Err(SvgPathError::UnexpectedDigit);
                }
                let mut digits: Vec<u8> = Vec::new();
                digits.push(d);
                let n = SvgNumber { negative: false, digits, has_dot: false, frac_digits: 0 };
                assert(n@ =~= NumberView {
                    negative: false,
                    digits: seq![d],
                    has_dot: false,
                    frac_digits: 0,
                });
                self.num_state = Some(n);
                Ok(())
            },
        }
    }

    fn add_dot(&mut self) -> (r: Result<(), SvgPathError>)
        requires
            old(self).wf(),
        ensures
            match dot(old(self)@) {
                Ok(t) => r is Ok && final(self)@ == t && final(self).wf(),
                Err(e) => r == Err::<(), SvgPathError>(e),
            },
    {
        match self.num_state.take() {
            Some(mut n) => {
                if n.has_dot {
                    return Err(SvgPathError::UnexpectedDot);
                }
                n.has_dot = true;
                self.num_state = Some(n);
                Ok(())
            },
            None => Err(SvgPathError::UnexpectedDot),
        }
    }

    fn whitespace(&mut self) -> (r: Result<(), SvgPathError>)
        requires
            old(self).wf(),
        ensures
            match separator(old(self)@) {
                Ok(t) => r is Ok && final(self)@ == t && final(self).wf(),
                Err(e) => r == Err::<(), SvgPathError>(e),
            },
    {
        self.finalize_num();
        self.complete_if_full()
    }
}

} // verus!

verus! {

impl PathParser {
    fn step(&mut self, b: u8) -> (r: Result<(), SvgPathError>)
        requires
            old(self).wf(),
        ensures
            match step(old(self)@, b) {
                Ok(t) => r is Ok && final(self)@ == t && final(self).wf(),
                Err(e) => r == Err::<(), SvgPathError>(e),
            },
    {
        match b {
            77 => self.next_cmd(SvgCommand::Move(true)),
            109 => self.next_cmd(SvgCommand::Move(false)),
            81 => self.next_cmd(SvgCommand::Quadratic(true)),
            113 => self.next_cmd(SvgCommand::Quadratic(false)),
            67 => self.next_cmd(SvgCommand::Cubic(true)),
            99 => self.next_cmd(SvgCommand::Cubic(false)),
            72 => self.next_cmd(SvgCommand::Hor(true)),
            104 => self.next_cmd(SvgCommand::Hor(false)),
            86 => self.next_cmd(SvgCommand::Vert(true)),
            118 => self.next_cmd(SvgCommand::Vert(false)),
            76 => self.next_cmd(SvgCommand::Line(true)),
            108 => self.next_cmd(SvgCommand::Line(false)),
            90 | 122 => self.next_cmd(SvgCommand::Close),
            45 => self.add_min(),
            48..=57 => self.add_digit(b - 48),
            46 => self.add_dot(),
            44 | 32 | 13 | 10 | 9 => self.whitespace(),
            _ => Err(SvgPathError::UnexpectedCharacter(b)),
        }
    }
}

/// A failure on a prefix is the failure of the whole.
pub proof fn lemma_scan_error_persists(bytes: Seq<u8>, k: int)
    requires
        0 <= k <= bytes.len(),
        scan(bytes.take(k)) is Err,
    ensures
        scan(bytes) == scan(bytes.take(k)),
    decreases bytes.len() - k,
{
    if k == bytes.len() {
        assert(bytes.take(k) =~= bytes);
    } else {
        let d = bytes.drop_last();
        assert(d.take(k) =~= bytes.take(k));
        lemma_scan_error_persists(d, k);
    }
}

/// What the outcome of a read says, over mathematical values.
pub open spec fn outcome_view(r: Result<Vec<PathSegment>, SvgPathError>) -> Result<Seq<SegmentView>, SvgPathError> {
    match r {
        Ok(v) => Ok(segments_view(v@)),
        Err(e) => Err(e),
    }
}

/// Reads an SVG path (`M`, `L`, `H`, `V`, `C`, `Q`, `Z` and their relative forms) into
/// its segments; the result is exactly what [`parse_spec`] gives for the bytes.
pub fn parse_svg_path(path: &[u8]) -> (res: Result<Vec<PathSegment>, SvgPathError>)
    ensures
        outcome_view(res) == parse_spec(path@),
{
    let mut state = PathParser::new();
    let mut i: usize = 0;
    assert(path@.take(0) =~= Seq::<u8>::empty());
    while i < path.len()
        invariant
            0 <= i <= path.len(),
            state.wf(),
            scan(path@.take(i as int)) == Ok::<ParserState, SvgPathError>(state@),
        decreases path.len() - i,
    {
        let b = path[i];
        let ghost before = state@;
        proof {
            assert(path@.take(i + 1).drop_last() =~= path@.take(i as int));
            assert(path@.take(i + 1).last() == b);
        }
        match state.step(b) {
            Ok(()) => {},
            Err(e) => {
                proof {
                    lemma_scan_error_persists(path@, i + 1);
                }
                return Err(e);
            },
        }
        i += 1;
    }
    assert(path@.take(i as int) =~= path@);
    match state.finalize_cmd() {
        Ok(()) => Ok(state.out),
        Err(e) => Err(e),
    }
}

} // verus!
