use vstd::prelude::*;
use crate::fen::{unicode_whitespace, is_whitespace};
use crate::text::{push_char, chars_of};
use crate::components::Side;

verus! {

/// The limits a `go` command gives: clocks and increments in milliseconds, moves to the next
/// time control, a depth, and whether to search until told to stop.
#[derive(Debug, PartialEq, Eq, Clone, Copy, Structural)]
pub struct GoParams {
    pub wtime: Option<u64>,
    pub btime: Option<u64>,
    pub winc: Option<u64>,
    pub binc: Option<u64>,
    pub moves_to_go: Option<u64>,
    pub depth: Option<u16>,
    pub infinite: bool,
}

impl GoParams {
    /// No limit given.
    pub open spec fn none() -> Self {
        GoParams { wtime: None, btime: None, winc: None, binc: None, moves_to_go: None, depth: None, infinite: false }
    }
}

impl Default for GoParams {
    /// No limit given.
    fn default() -> (r: Self)
        ensures
            r == GoParams::none(),
    {
        GoParams { wtime: None, btime: None, winc: None, binc: None, moves_to_go: None, depth: None, infinite: false }
    }
}

/// The clock and increment of `stm` under `params`, a missing increment read as zero.
pub open spec fn side_clock(params: GoParams, stm: Side) -> (Option<u64>, int) {
    if stm == Side::White {
        (params.wtime, match params.winc { Some(i) => i as int, None => 0 })
    } else {
        (params.btime, match params.binc { Some(i) => i as int, None => 0 })
    }
}

/// The milliseconds to think for a move under `params` with `stm` to move, when its clock is
/// given: with a number of moves to go, the remaining time shared among them less 50 for
/// overhead (not below zero); in sudden death, a thirtieth of the remaining time plus the
/// increment; never under 50.
pub open spec fn time_budget(params: GoParams, stm: Side) -> Option<int> {
    match side_clock(params, stm).0 {
        None => None,
        Some(t) => {
            let alloc = match params.moves_to_go {
                Some(m) => if t / m >= 50 { t / m - 50 } else { 0 },
                None => t / 30 + side_clock(params, stm).1,
            };
            Some(if alloc >= 50 { alloc } else { 50 })
        },
    }
}

/// In sudden death, a thirtieth of `stm`'s remaining time plus its increment fits in 64 bits.
pub open spec fn budget_fits(params: GoParams, stm: Side) -> bool {
    match side_clock(params, stm).0 {
        Some(t) => params.moves_to_go is None ==> t / 30 + side_clock(params, stm).1 <= u64::MAX,
        None => true,
    }
}

/// The milliseconds to think for a move under `params` with `stm` to move, when its clock is
/// given.
pub fn think_time(params: &GoParams, stm: Side) -> (r: Option<u64>)
    requires
        params.moves_to_go != Some(0u64),
        budget_fits(*params, stm),
    ensures
        time_budget(*params, stm) is None ==> r is None,
        time_budget(*params, stm) matches Some(b) ==> r == Some(b as u64),
{
    let (time_remaining, increment) = match stm {
        Side::White => (params.wtime, match params.winc { Some(i) => i, None => 0 }),
        Side::Black => (params.btime, match params.binc { Some(i) => i, None => 0 }),
    };
    match time_remaining {
        None => None,
        Some(time) => {
            let allocation = match params.moves_to_go {
                Some(moves) => (time / moves).saturating_sub(50),
                None => time / 30 + increment,
            };
            Some(if allocation > 50 { allocation } else { 50 })
        },
    }
}

/// A command of the UCI protocol.
#[derive(Debug, PartialEq, Eq, Clone)]
pub enum UciCommand {
    /// `uci`, sent at startup.
    Uci,
    /// `isready`.
    IsReady,
    /// `ucinewgame`.
    UciNewGame,
    /// `position`: the start position or a FEN, then moves.
    Position { startpos: bool, fen: Option<String>, moves: Vec<String> },
    /// `go`, with its limits.
    Go(GoParams),
    /// `stop`.
    Stop,
    /// `setoption name .. value ..`.
    SetOption { name: String, value: String },
    /// `quit`.
    Quit,
    /// Anything else, with the line as it came.
    Unknown(String),
}

/// The character sequences of a list of strings.
pub open spec fn string_views(v: Seq<String>) -> Seq<Seq<char>> {
    v.map_values(|m: String| m@)
}

/// A command as text: what `UciCommand` holds, with its strings as character sequences.
pub enum CommandView {
    Uci,
    IsReady,
    UciNewGame,
    Position { startpos: bool, fen: Option<Seq<char>>, moves: Seq<Seq<char>> },
    Go(GoParams),
    Stop,
    SetOption { name: Seq<char>, value: Seq<char> },
    Quit,
    Unknown(Seq<char>),
}

impl View for UciCommand {
    type V = CommandView;

    open spec fn view(&self) -> CommandView {
        match self {
            UciCommand::Uci => CommandView::Uci,
            UciCommand::IsReady => CommandView::IsReady,
            UciCommand::UciNewGame => CommandView::UciNewGame,
            UciCommand::Position { startpos, fen, moves } => CommandView::Position {
                startpos: *startpos,
                fen: match fen {
                    Some(f) => Some(f@),
                    None => None,
                },
                moves: string_views(moves@),
            },
            UciCommand::Go(p) => CommandView::Go(*p),
            UciCommand::Stop => CommandView::Stop,
            UciCommand::SetOption { name, value } => CommandView::SetOption { name: name@, value: value@ },
            UciCommand::Quit => CommandView::Quit,
            UciCommand::Unknown(l) => CommandView::Unknown(l@),
        }
    }
}

/// An ASCII white-space character: space, tab, line feed, form feed, carriage return.
pub open spec fn ascii_ws(c: char) -> bool {
    c == ' ' || c == '\t' || c == '\n' || c == '\x0C' || c == '\r'
}

/// The words of `s` from `i` on, `cur` being the word read so far and `acc` the words before
/// it: maximal runs of characters that are not ASCII white space.
pub open spec fn words_from(s: Seq<char>, i: int, cur: Seq<char>, acc: Seq<Seq<char>>) -> Seq<Seq<char>>
    decreases s.len() - i,
{
    if i >= s.len() {
        if cur.len() > 0 {
            acc.push(cur)
        } else {
            acc
        }
    } else if ascii_ws(s[i]) {
        words_from(s, i + 1, Seq::empty(), if cur.len() > 0 { acc.push(cur) } else { acc })
    } else {
        words_from(s, i + 1, cur.push(s[i]), acc)
    }
}

/// Index of the first character of `s` from `i` on that is not white space.
pub open spec fn lead(s: Seq<char>, i: int) -> int
    decreases s.len() - i,
{
    if i < s.len() && unicode_whitespace(s[i]) {
        lead(s, i + 1)
    } else {
        i
    }
}

/// One past the last character of `s` before `j` that is not white space, `a` at least.
pub open spec fn trail(s: Seq<char>, a: int, j: int) -> int
    decreases j - a,
{
    if j > a && unicode_whitespace(s[j - 1]) {
        trail(s, a, j - 1)
    } else {
        j
    }
}

/// `s` without leading and trailing white space.
pub open spec fn trimmed(s: Seq<char>) -> Seq<char> {
    let a = lead(s, 0);
    s.subrange(a, trail(s, a, s.len() as int))
}

/// The words of the line `s`: those of `s` trimmed, split at ASCII white space.
pub open spec fn words(s: Seq<char>) -> Seq<Seq<char>> {
    words_from(trimmed(s), 0, Seq::empty(), Seq::empty())
}

/// The value of the decimal digits `d`.
pub open spec fn digits_val(d: Seq<char>) -> int
    decreases d.len(),
{
    if d.len() == 0 {
        0
    } else {
        digits_val(d.drop_last()) * 10 + (d.last() as int - '0' as int)
    }
}

/// Every character of `d` is a decimal digit.
pub open spec fn all_digits(d: Seq<char>) -> bool {
    forall|k: int| 0 <= k < d.len() ==> '0' <= #[trigger] d[k] <= '9'
}

/// `w` without a leading `+`.
pub open spec fn unsigned_part(w: Seq<char>) -> Seq<char> {
    if w.len() > 0 && w[0] == '+' {
        w.drop_first()
    } else {
        w
    }
}

/// `w` read as an unsigned number no larger than `max`: an optional `+`, then one digit or
/// more; `None` for anything else or a larger value.
pub open spec fn uint_of(w: Seq<char>, max: int) -> Option<int> {
    let d = unsigned_part(w);
    if d.len() > 0 && all_digits(d) && digits_val(d) <= max {
        Some(digits_val(d))
    } else {
        None
    }
}

/// `w` read as a `u64`.
pub open spec fn u64_of(w: Seq<char>) -> Option<u64> {
    match uint_of(w, u64::MAX as int) {
        Some(v) => Some(v as u64),
        None => None,
    }
}

/// `w` read as a `u16`.
pub open spec fn u16_of(w: Seq<char>) -> Option<u16> {
    match uint_of(w, u16::MAX as int) {
        Some(v) => Some(v as u16),
        None => None,
    }
}

/// The `go` limits read from the words `ws` from `i` on, onto `p`: each of `wtime`,
/// `btime`, `winc`, `binc`, `movestogo` and `depth` sets its limit from the next word (none
/// when it does not read as a number) and skips it; `infinite` sets the flag; other words
/// are passed over.
pub open spec fn go_from(ws: Seq<Seq<char>>, i: int, p: GoParams) -> GoParams
    decreases ws.len() - i,
{
    if i >= ws.len() {
        p
    } else {
        let w = ws[i];
        let has_next = i + 1 < ws.len();
        let next = ws[i + 1];
        if w == "wtime"@ {
            go_from(ws, if has_next { i + 2 } else { i + 1 }, if has_next { GoParams { wtime: u64_of(next), ..p } } else { p })
        } else if w == "btime"@ {
            go_from(ws, if has_next { i + 2 } else { i + 1 }, if has_next { GoParams { btime: u64_of(next), ..p } } else { p })
        } else if w == "winc"@ {
            go_from(ws, if has_next { i + 2 } else { i + 1 }, if has_next { GoParams { winc: u64_of(next), ..p } } else { p })
        } else if w == "binc"@ {
            go_from(ws, if has_next { i + 2 } else { i + 1 }, if has_next { GoParams { binc: u64_of(next), ..p } } else { p })
        } else if w == "movestogo"@ {
            go_from(ws, if has_next { i + 2 } else { i + 1 }, if has_next { GoParams { moves_to_go: u64_of(next), ..p } } else { p })
        } else if w == "depth"@ {
            go_from(ws, if has_next { i + 2 } else { i + 1 }, if has_next { GoParams { depth: u16_of(next), ..p } } else { p })
        } else if w == "infinite"@ {
            go_from(ws, i + 1, GoParams { infinite: true, ..p })
        } else {
            go_from(ws, i + 1, p)
        }
    }
}

/// `acc` with the word `w` added, a space between.
pub open spec fn add_word(acc: Seq<char>, w: Seq<char>) -> Seq<char> {
    if acc.len() > 0 {
        acc + seq![' '] + w
    } else {
        w
    }
}

/// The words `ws` from `i` on joined by single spaces onto `acc`.
pub open spec fn join_from(ws: Seq<Seq<char>>, i: int, acc: Seq<char>) -> Seq<char>
    decreases ws.len() - i,
{
    if i >= ws.len() {
        acc
    } else {
        join_from(ws, i + 1, if i == 0 { ws[0] } else { acc + seq![' '] + ws[i] })
    }
}

/// The words `ws` joined by single spaces.
pub open spec fn joined(ws: Seq<Seq<char>>) -> Seq<char> {
    join_from(ws, 0, Seq::empty())
}

/// Index of the first word `moves` in `ws`, if any.
pub open spec fn moves_index(ws: Seq<Seq<char>>, i: int) -> Option<int>
    decreases ws.len() - i,
{
    if i >= ws.len() {
        None
    } else if ws[i] == "moves"@ {
        Some(i)
    } else {
        moves_index(ws, i + 1)
    }
}

/// The `position` command read from its words `ws`: the words before `moves` give the start
/// position (`startpos`) or a FEN (`fen` and the words after it, joined); the words after
/// `moves` are the moves.
pub open spec fn position_view(ws: Seq<Seq<char>>) -> CommandView {
    let idx = moves_index(ws, 0);
    let head = match idx {
        Some(k) => ws.take(k),
        None => ws,
    };
    CommandView::Position {
        startpos: head.len() > 0 && head[0] == "startpos"@,
        fen: if head.len() > 0 && head[0] != "startpos"@ && head[0] == "fen"@ {
            Some(joined(head.skip(1)))
        } else {
            None
        },
        moves: match idx {
            Some(k) => ws.skip(k + 1),
            None => Seq::empty(),
        },
    }
}

/// The name and value of a `setoption` command read from its words `ws` from `i` on: `name`
/// gathers the words up to `value`, `value` gathers all the words after it, each joined by
/// single spaces; other words are passed over.
pub open spec fn option_from(ws: Seq<Seq<char>>, i: int, name: Seq<char>, value: Seq<char>, in_name: bool, in_value: bool) -> (Seq<char>, Seq<char>)
    decreases ws.len() - i,
{
    if i >= ws.len() {
        (name, value)
    } else if in_value {
        option_from(ws, i + 1, name, add_word(value, ws[i]), false, true)
    } else if in_name && ws[i] != "value"@ {
        option_from(ws, i + 1, add_word(name, ws[i]), value, true, false)
    } else if ws[i] == "name"@ {
        option_from(ws, i + 1, name, value, true, false)
    } else if ws[i] == "value"@ {
        option_from(ws, i + 1, name, value, false, true)
    } else {
        option_from(ws, i + 1, name, value, false, false)
    }
}

/// The command the line `line` holds.
pub open spec fn command_view(line: Seq<char>) -> CommandView {
    let ws = words(line);
    if ws.len() == 0 {
        CommandView::Unknown(line)
    } else if ws[0] == "uci"@ {
        CommandView::Uci
    } else if ws[0] == "isready"@ {
        CommandView::IsReady
    } else if ws[0] == "stop"@ {
        CommandView::Stop
    } else if ws[0] == "quit"@ {
        CommandView::Quit
    } else if ws[0] == "position"@ {
        position_view(ws.skip(1))
    } else if ws[0] == "go"@ {
        CommandView::Go(go_from(ws.skip(1), 0, GoParams::none()))
    } else if ws[0] == "ucinewgame"@ {
        CommandView::UciNewGame
    } else if ws[0] == "setoption"@ {
        let (n, v) = option_from(ws.skip(1), 0, Seq::empty(), Seq::empty(), false, false);
        CommandView::SetOption { name: n, value: v }
    } else {
        CommandView::Unknown(line)
    }
}

/// The character sequences of a list of character vectors.
pub open spec fn views_of(v: Seq<Vec<char>>) -> Seq<Seq<char>> {
    v.map_values(|x: Vec<char>| x@)
}

/// Whether `c` is ASCII white space.
fn is_ascii_ws(c: char) -> (r: bool)
    ensures
        r == ascii_ws(c),
{
    c == ' ' || c == '\t' || c == '\n' || c == '\x0C' || c == '\r'
}

/// Splits `s` at ASCII white space into its words.
fn split_words(s: &Vec<char>) -> (r: Vec<Vec<char>>)
    ensures
        views_of(r@) == words_from(s@, 0, Seq::empty(), Seq::empty()),
{
    let mut acc: Vec<Vec<char>> = Vec::new();
    let mut cur: Vec<char> = Vec::new();
    let mut i: usize = 0;
    proof {
        assert(views_of(acc@) =~= Seq::<Seq<char>>::empty());
        assert(cur@ =~= Seq::<char>::empty());
    }
    while i < s.len()
        invariant
            i <= s@.len(),
            words_from(s@, i as int, cur@, views_of(acc@)) == words_from(s@, 0, Seq::empty(), Seq::empty()),
        decreases s@.len() - i,
    {
        let c = s[i];
        let ghost cur0 = cur@;
        let ghost acc0 = views_of(acc@);
        if is_ascii_ws(c) {
            if cur.len() > 0 {
                acc.push(cur);
                cur = Vec::new();
                proof {
                    assert(views_of(acc@) =~= acc0.push(cur0));
                }
            }
            proof {
                assert(cur@ =~= Seq::<char>::empty());
            }
        } else {
            cur.push(c);
        }
        proof {
            assert(s@[i as int] == c);
            assert(words_from(s@, i as int, cur0, acc0) == words_from(s@, i as int + 1, cur@, views_of(acc@)));
        }
        i = i + 1;
    }
    if cur.len() > 0 {
        let ghost acc0 = views_of(acc@);
        acc.push(cur);
        proof {
            assert(views_of(acc@) =~= acc0.push(cur@));
        }
    }
    acc
}

/// `s` without leading and trailing white space.
fn trim_chars(s: &Vec<char>) -> (r: Vec<char>)
    ensures
        r@ == trimmed(s@),
{
    let n = s.len();
    let mut a: usize = 0;
    while a < n && is_whitespace(s[a])
        invariant
            a <= n,
            n == s@.len(),
            lead(s@, a as int) == lead(s@, 0),
        decreases n - a,
    {
        a = a + 1;
    }
    let mut b: usize = n;
    while b > a && is_whitespace(s[b - 1])
        invariant
            a <= b <= n,
            n == s@.len(),
            a == lead(s@, 0),
            trail(s@, a as int, b as int) == trail(s@, a as int, n as int),
        decreases b,
    {
        b = b - 1;
    }
    let mut out: Vec<char> = Vec::new();
    let mut k = a;
    while k < b
        invariant
            a <= k <= b <= n,
            n == s@.len(),
            out@ == s@.subrange(a as int, k as int),
        decreases b - k,
    {
        out.push(s[k]);
        proof {
            assert(out@ =~= s@.subrange(a as int, k as int + 1));
        }
        k = k + 1;
    }
    out
}

/// Whether the word `w` is `lit`.
fn word_is(w: &Vec<char>, lit: &str) -> (r: bool)
    ensures
        r == (w@ == lit@),
{
    let n = lit.unicode_len();
    if w.len() != n {
        return false;
    }
    let mut i: usize = 0;
    while i < n
        invariant
            i <= n,
            n == lit@.len(),
            w@.len() == n,
            forall|k: int| 0 <= k < i ==> w@[k] == lit@[k],
        decreases n - i,
    {
        if w[i] != lit.get_char(i) {
            return false;
        }
        i = i + 1;
    }
    proof {
        assert(w@ =~= lit@);
    }
    true
}

/// The digits `d` have a value of at least zero.
proof fn lemma_digits_nonneg(d: Seq<char>)
    requires
        forall|j: int| 0 <= j < d.len() ==> '0' <= #[trigger] d[j] <= '9',
    ensures
        digits_val(d) >= 0,
    decreases d.len(),
{
    if d.len() > 0 {
        lemma_digits_nonneg(d.drop_last());
    }
}

/// A run of digits is worth at least any of its prefixes.
proof fn lemma_digits_mono(d: Seq<char>, k: int)
    requires
        0 <= k <= d.len(),
        forall|j: int| 0 <= j < d.len() ==> '0' <= #[trigger] d[j] <= '9',
    ensures
        digits_val(d) >= digits_val(d.take(k)),
    decreases d.len(),
{
    if k < d.len() {
        let e = d.drop_last();
        assert(e.take(k) =~= d.take(k));
        lemma_digits_mono(e, k);
        lemma_digits_nonneg(e);
    } else {
        assert(d.take(k) =~= d);
    }
}

/// The word `w` read as an unsigned number no larger than `max`.
fn parse_uint(w: &Vec<char>, max: u64) -> (r: Option<u64>)
    requires
        max >= 9,
    ensures
        r matches Some(v) ==> uint_of(w@, max as int) == Some(v as int),
        r is None ==> uint_of(w@, max as int) is None,
{
    let start: usize = if w.len() > 0 && w[0] == '+' { 1 } else { 0 };
    let ghost d = unsigned_part(w@);
    if start >= w.len() {
        return None;
    }
    proof {
        assert(d =~= w@.subrange(start as int, w@.len() as int));
    }
    let mut i: usize = start;
    while i < w.len()
        invariant
            start <= i <= w@.len(),
            d == w@.subrange(start as int, w@.len() as int),
            d == unsigned_part(w@),
            forall|k: int| 0 <= k < i - start ==> '0' <= #[trigger] d[k] <= '9',
        decreases w@.len() - i,
    {
        let c = w[i];
        if c < '0' || c > '9' {
            proof {
                assert(d[i - start] == c);
                assert(!('0' <= d[i - start] <= '9'));
                assert(0 <= i - start < d.len());
                assert(!all_digits(d));
            }
            return None;
        }
        i = i + 1;
    }
    let mut v: u64 = 0;
    let mut j: usize = start;
    while j < w.len()
        invariant
            start <= j <= w@.len(),
            start < w@.len(),
            max >= 9,
            d == w@.subrange(start as int, w@.len() as int),
            d == unsigned_part(w@),
            forall|k: int| 0 <= k < d.len() ==> '0' <= #[trigger] d[k] <= '9',
            v == digits_val(d.take(j - start)),
            v <= max,
        decreases w@.len() - j,
    {
        let c = w[j];
        proof {
            assert(d[j - start] == c);
        }
        let digit = (c as u64) - ('0' as u64);
        proof {
            assert(d.take(j - start + 1).drop_last() =~= d.take(j - start));
            assert(d.take(j - start + 1).last() == c);
        }
        if v > (max - digit) / 10 {
            proof {
                assert(v * 10 + digit > max) by (nonlinear_arith)
                    requires
                        v > (max - digit) / 10,
                        digit <= 9,
                        max >= 9;
                assert(digit == c as int - '0' as int);
                assert(digits_val(d.take(j - start + 1)) == v * 10 + digit);
                lemma_digits_mono(d, j - start + 1);
                assert(digits_val(d) > max);
                assert(all_digits(d));
            }
            return None;
        }
        proof {
            assert(v * 10 + digit <= max) by (nonlinear_arith)
                requires
                    v <= (max - digit) / 10,
                    digit <= 9,
                    max >= 9;
        }
        v = v * 10 + digit;
        j = j + 1;
    }
    proof {
        assert(d.take(j - start) =~= d);
        assert(all_digits(d));
    }
    Some(v)
}

/// The word `w` read as a `u64`.
fn parse_u64(w: &Vec<char>) -> (r: Option<u64>)
    ensures
        r == u64_of(w@),
{
    parse_uint(w, u64::MAX)
}

/// The word `w` read as a `u16`.
fn parse_u16(w: &Vec<char>) -> (r: Option<u16>)
    ensures
        r == u16_of(w@),
{
    match parse_uint(w, 65535) {
        Some(v) => Some(v as u16),
        None => None,
    }
}

/// The limits of a `go` command read from its words `ws`, from `first` on.
fn parse_go(ws: &Vec<Vec<char>>, first: usize) -> (r: GoParams)
    requires
        first <= ws@.len(),
    ensures
        r == go_from(views_of(ws@).skip(first as int), 0, GoParams::none()),
{
    let ghost vs = views_of(ws@).skip(first as int);
    let mut p = GoParams::default();
    let mut i: usize = first;
    while i < ws.len()
        invariant
            first <= i,
            vs == views_of(ws@).skip(first as int),
            i <= ws@.len() + 1,
            go_from(vs, i - first, p) == go_from(vs, 0, GoParams::none()),
        decreases ws@.len() + 1 - i,
    {
        let ghost k = i - first;
        let ghost p0 = p;
        let w = &ws[i];
        assert(vs[k] == w@);
        let has_next = i + 1 < ws.len();
        if has_next {
            assert(vs[k + 1] == ws@[i as int + 1]@);
        }
        if word_is(w, "wtime") {
            if has_next {
                p.wtime = parse_u64(&ws[i + 1]);
            }
            i = if has_next { i + 2 } else { i + 1 };
        } else if word_is(w, "btime") {
            if has_next {
                p.btime = parse_u64(&ws[i + 1]);
            }
            i = if has_next { i + 2 } else { i + 1 };
        } else if word_is(w, "winc") {
            if has_next {
                p.winc = parse_u64(&ws[i + 1]);
            }
            i = if has_next { i + 2 } else { i + 1 };
        } else if word_is(w, "binc") {
            if has_next {
                p.binc = parse_u64(&ws[i + 1]);
            }
            i = if has_next { i + 2 } else { i + 1 };
        } else if word_is(w, "movestogo") {
            if has_next {
                p.moves_to_go = parse_u64(&ws[i + 1]);
            }
            i = if has_next { i + 2 } else { i + 1 };
        } else if word_is(w, "depth") {
            if has_next {
                p.depth = parse_u16(&ws[i + 1]);
            }
            i = if has_next { i + 2 } else { i + 1 };
        } else if word_is(w, "infinite") {
            p.infinite = true;
            i = i + 1;
        } else {
            i = i + 1;
        }
        assert(go_from(vs, k, p0) == go_from(vs, i - first, p));
    }
    p
}

/// The words `ws` from `first` on joined by single spaces.
fn join_words(ws: &Vec<Vec<char>>, first: usize, last: usize) -> (r: String)
    requires
        first <= last <= ws@.len(),
    ensures
        r@ == joined(views_of(ws@).subrange(first as int, last as int)),
{
    let ghost vs = views_of(ws@).subrange(first as int, last as int);
    let mut out = String::new();
    let mut i: usize = first;
    proof {
        assert(out@ =~= Seq::<char>::empty());
    }
    while i < last
        invariant
            first <= i <= last <= ws@.len(),
            vs == views_of(ws@).subrange(first as int, last as int),
            join_from(vs, i - first, out@) == joined(vs),
        decreases last - i,
    {
        let ghost k = i - first;
        let ghost o0 = out@;
        assert(vs[k] == ws@[i as int]@);
        if i == first {
            let mut fresh = String::new();
            let w = &ws[i];
            let mut t: usize = 0;
            proof {
                assert(fresh@ =~= Seq::<char>::empty());
            }
            while t < w.len()
                invariant
                    t <= w@.len(),
                    fresh@ == w@.subrange(0, t as int),
                decreases w@.len() - t,
            {
                push_char(&mut fresh, w[t]);
                proof {
                    assert(fresh@ =~= w@.subrange(0, t as int + 1));
                }
                t = t + 1;
            }
            proof {
                assert(fresh@ =~= w@);
            }
            out = fresh;
        } else {
            push_char(&mut out, ' ');
            let w = &ws[i];
            let ghost base = out@;
            let mut t: usize = 0;
            while t < w.len()
                invariant
                    t <= w@.len(),
                    out@ == base + w@.subrange(0, t as int),
                decreases w@.len() - t,
            {
                push_char(&mut out, w[t]);
                proof {
                    assert(out@ =~= base + w@.subrange(0, t as int + 1));
                }
                t = t + 1;
            }
            proof {
                assert(out@ =~= o0 + seq![' '] + w@);
            }
        }
        i = i + 1;
    }
    out
}

/// The word `w` as a string.
fn word_string(w: &Vec<char>) -> (r: String)
    ensures
        r@ == w@,
{
    let mut out = String::new();
    let mut t: usize = 0;
    proof {
        assert(out@ =~= Seq::<char>::empty());
    }
    while t < w.len()
        invariant
            t <= w@.len(),
            out@ == w@.subrange(0, t as int),
        decreases w@.len() - t,
    {
        push_char(&mut out, w[t]);
        proof {
            assert(out@ =~= w@.subrange(0, t as int + 1));
        }
        t = t + 1;
    }
    proof {
        assert(out@ =~= w@);
    }
    out
}

/// The `position` command read from the words `ws` from `first` on.
fn parse_position(ws: &Vec<Vec<char>>, first: usize) -> (r: UciCommand)
    requires
        first <= ws@.len(),
    ensures
        r@ == position_view(views_of(ws@).skip(first as int)),
{
    let ghost vs = views_of(ws@).skip(first as int);
    let mut idx: usize = first;
    while idx < ws.len() && !word_is(&ws[idx], "moves")
        invariant
            first <= idx <= ws@.len(),
            vs == views_of(ws@).skip(first as int),
            moves_index(vs, idx - first) == moves_index(vs, 0),
        decreases ws@.len() - idx,
    {
        assert(vs[idx - first] == ws@[idx as int]@);
        idx = idx + 1;
    }
    let found = idx < ws.len();
    proof {
        if found {
            assert(vs[idx - first] == ws@[idx as int]@);
        }
    }
    let head_end = idx;
    let ghost head = match moves_index(vs, 0) {
        Some(k) => vs.take(k),
        None => vs,
    };
    proof {
        assert(head =~= views_of(ws@).subrange(first as int, head_end as int));
    }
    let mut startpos = false;
    let mut fen: Option<String> = None;
    if head_end > first {
        proof {
            assert(head[0] == ws@[first as int]@);
        }
        if word_is(&ws[first], "startpos") {
            startpos = true;
        } else if word_is(&ws[first], "fen") {
            let f = join_words(ws, first + 1, head_end);
            proof {
                assert(head.skip(1) =~= views_of(ws@).subrange(first as int + 1, head_end as int));
            }
            fen = Some(f);
        }
    }
    let mut moves: Vec<String> = Vec::new();
    if found {
        let mut j = idx + 1;
        proof {
            assert(string_views(moves@) =~= views_of(ws@).subrange(idx as int + 1, j as int));
        }
        while j < ws.len()
            invariant
                idx + 1 <= j <= ws@.len(),
                first <= idx < ws@.len(),
                string_views(moves@) == views_of(ws@).subrange(idx as int + 1, j as int),
            decreases ws@.len() - j,
        {
            let m = word_string(&ws[j]);
            let ghost mv = m@;
            let ghost before = moves@;
            moves.push(m);
            proof {
                let target = views_of(ws@).subrange(idx as int + 1, j as int + 1);
                assert(string_views(before).len() == before.len());
                assert(views_of(ws@).len() == ws@.len());
                assert(moves@.len() == j - idx);
                assert(target.len() == j - idx);
                assert forall|t: int| 0 <= t < moves@.len() implies #[trigger] string_views(moves@)[t] == target[t] by {
                    if t < before.len() {
                        assert(moves@[t] == before[t]);
                        assert(string_views(before)[t] == views_of(ws@).subrange(idx as int + 1, j as int)[t]);
                    } else {
                        assert(moves@[t]@ == mv);
                        assert(target[t] == views_of(ws@)[j as int]);
                        assert(views_of(ws@)[j as int] == ws@[j as int]@);
                    }
                }
                assert(string_views(moves@) =~= target);
            }
            j = j + 1;
        }
        proof {
            assert(views_of(ws@).subrange(idx as int + 1, ws@.len() as int) =~= vs.skip(idx - first + 1));
        }
    } else {
        proof {
            assert(string_views(moves@) =~= Seq::<Seq<char>>::empty());
        }
    }
    UciCommand::Position { startpos, fen, moves }
}

/// The `setoption` command read from the words `ws` from `first` on.
fn parse_setoption(ws: &Vec<Vec<char>>, first: usize) -> (r: UciCommand)
    requires
        first <= ws@.len(),
    ensures
        r@ == (CommandView::SetOption {
            name: option_from(views_of(ws@).skip(first as int), 0, Seq::empty(), Seq::empty(), false, false).0,
            value: option_from(views_of(ws@).skip(first as int), 0, Seq::empty(), Seq::empty(), false, false).1,
        }),
{
    let ghost vs = views_of(ws@).skip(first as int);
    let mut name = String::new();
    let mut value = String::new();
    let mut in_name = false;
    let mut in_value = false;
    let mut i: usize = first;
    proof {
        assert(name@ =~= Seq::<char>::empty());
        assert(value@ =~= Seq::<char>::empty());
    }
    while i < ws.len()
        invariant
            first <= i <= ws@.len(),
            vs == views_of(ws@).skip(first as int),
            in_value ==> !in_name,
            option_from(vs, i - first, name@, value@, in_name, in_value) == option_from(
                vs,
                0,
                Seq::empty(),
                Seq::empty(),
                false,
                false,
            ),
        decreases ws@.len() - i,
    {
        let w = &ws[i];
        assert(vs.len() == ws@.len() - first);
        assert(vs[i - first] == w@);
        let ghost n0 = name@;
        let ghost v0 = value@;
        let ghost f0 = in_name;
        let ghost g0 = in_value;
        if in_value {
            append_word(&mut value, w);
        } else if in_name && !word_is(w, "value") {
            append_word(&mut name, w);
        } else if word_is(w, "name") {
            in_name = true;
            in_value = false;
        } else if word_is(w, "value") {
            in_name = false;
            in_value = true;
        } else {
            in_name = false;
            in_value = false;
        }
        assert(option_from(vs, i - first, n0, v0, f0, g0) == option_from(vs, i - first + 1, name@, value@, in_name, in_value));
        i = i + 1;
    }
    UciCommand::SetOption { name, value }
}

/// Adds the word `w` to `s`, a space between when `s` is not empty.
fn append_word(s: &mut String, w: &Vec<char>)
    ensures
        final(s)@ == add_word(old(s)@, w@),
{
    let empty = s.unicode_len() == 0;
    if empty {
        let mut t: usize = 0;
        let mut out = String::new();
        proof {
            assert(out@ =~= Seq::<char>::empty());
        }
        while t < w.len()
            invariant
                t <= w@.len(),
                out@ == w@.subrange(0, t as int),
            decreases w@.len() - t,
        {
            push_char(&mut out, w[t]);
            proof {
                assert(out@ =~= w@.subrange(0, t as int + 1));
            }
            t = t + 1;
        }
        proof {
            assert(out@ =~= w@);
        }
        *s = out;
    } else {
        push_char(s, ' ');
        let ghost base = s@;
        let mut t: usize = 0;
        while t < w.len()
            invariant
                t <= w@.len(),
                s@ == base + w@.subrange(0, t as int),
            decreases w@.len() - t,
        {
            push_char(s, w[t]);
            proof {
                assert(s@ =~= base + w@.subrange(0, t as int + 1));
            }
            t = t + 1;
        }
        proof {
            assert(s@ =~= old(s)@ + seq![' '] + w@);
        }
    }
}

/// Reads one line of the UCI protocol.
pub fn parse_line(line: &str) -> (r: UciCommand)
    ensures
        r@ == command_view(line@),
{
    let chars = chars_of(line);
    let trimmed_chars = trim_chars(&chars);
    let ws = split_words(&trimmed_chars);
    let ghost v = views_of(ws@);
    proof {
        assert(v == words(line@));
    }
    if ws.len() == 0 {
        return UciCommand::Unknown(line.to_string());
    }
    let head = &ws[0];
    assert(v[0] == head@);
    if word_is(head, "uci") {
        UciCommand::Uci
    } else if word_is(head, "isready") {
        UciCommand::IsReady
    } else if word_is(head, "stop") {
        UciCommand::Stop
    } else if word_is(head, "quit") {
        UciCommand::Quit
    } else if word_is(head, "position") {
        parse_position(&ws, 1)
    } else if word_is(head, "go") {
        UciCommand::Go(parse_go(&ws, 1))
    } else if word_is(head, "ucinewgame") {
        UciCommand::UciNewGame
    } else if word_is(head, "setoption") {
        parse_setoption(&ws, 1)
    } else {
        UciCommand::Unknown(line.to_string())
    }
}

} // verus!
