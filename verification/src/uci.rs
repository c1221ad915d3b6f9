//! The text command boundary: parsing of the line-oriented protocol
//! that drives searches, naming of moves in coordinate notation, and
//! the pure state transitions the command stream causes.

use vstd::prelude::*;

use crate::magics::Tables;
use crate::movement::{move_to_str, Move};
use crate::position::Position;
use crate::search::{PONDERING_STATE, SEARCHING_STATE, STOPPING_STATE};

verus! {

/// Character-for-character equality of two strings.
pub fn str_eq(a: &str, b: &str) -> (r: bool)
    ensures
        r == (a@ == b@),
{
    let na = a.unicode_len();
    let nb = b.unicode_len();
    if na != nb {
        proof {
            assert(a@ != b@) by {
                assert(a@.len() != b@.len());
            }
        }
        return false;
    }
    let mut i: usize = 0;
    while i < na
        invariant
            na == a@.len(),
            na == b@.len(),
            i <= na,
            forall|j: int| 0 <= j < i ==> a@[j] == b@[j],
        decreases na - i,
    {
        if a.get_char(i) != b.get_char(i) {
            return false;
        }
        i = i + 1;
    }
    proof {
        assert(a@ =~= b@);
    }
    true
}

/// Splits a line into its whitespace-separated words.
pub fn tokenize(s: &str) -> (r: Vec<String>)
{
    let n = s.unicode_len();
    let mut out: Vec<String> = Vec::new();
    let mut i: usize = 0;
    let mut start: usize = 0;
    let mut in_token = false;
    while i < n
        invariant
            n == s@.len(),
            i <= n,
            start <= i,
        decreases n - i,
    {
        let c = s.get_char(i);
        let is_space = c == ' ' || c == '\t' || c == '\r' || c == '\n';
        if is_space {
            if in_token {
                out.push(s.substring_char(start, i).to_owned());
                in_token = false;
            }
        } else {
            if !in_token {
                start = i;
                in_token = true;
            }
        }
        i = i + 1;
    }
    if in_token {
        out.push(s.substring_char(start, n).to_owned());
    }
    out
}

fn parse_u64_str(s: &String) -> (r: u64)
{
    let n = s.as_str().unicode_len();
    let mut v: u64 = 0;
    let mut i: usize = 0;
    while i < n
        invariant
            n == s@.len(),
            i <= n,
        decreases n - i,
    {
        let c = s.as_str().get_char(i);
        let d: u64 = match c {
            '0' => 0,
            '1' => 1,
            '2' => 2,
            '3' => 3,
            '4' => 4,
            '5' => 5,
            '6' => 6,
            '7' => 7,
            '8' => 8,
            '9' => 9,
            _ => {
                return v;
            },
        };
        if v < 0x0100_0000_0000_0000 {
            v = v * 10 + d;
        }
        i = i + 1;
    }
    v
}

fn parse_u32_str(s: &String) -> (r: u32)
{
    let n = s.as_str().unicode_len();
    let mut v: u32 = 0;
    let mut i: usize = 0;
    while i < n
        invariant
            n == s@.len(),
            i <= n,
        decreases n - i,
    {
        let c = s.as_str().get_char(i);
        let d: u32 = match c {
            '0' => 0,
            '1' => 1,
            '2' => 2,
            '3' => 3,
            '4' => 4,
            '5' => 5,
            '6' => 6,
            '7' => 7,
            '8' => 8,
            '9' => 9,
            _ => {
                return v;
            },
        };
        if v < 400000000 {
            v = v * 10 + d;
        }
        i = i + 1;
    }
    v
}

/// The search parameters of a `go` command.
pub struct GoParams {
    pub wtime: u32,
    pub btime: u32,
    pub winc: u32,
    pub binc: u32,
    pub movestogo: u32,
    pub movetime: u32,
    pub depth: usize,
    pub nodes: u64,
    pub infinite: bool,
    pub ponder: bool,
    pub searchmoves: Vec<String>,
}

impl GoParams {
    pub fn new() -> (g: GoParams)
        ensures
            g.wtime == 0 && g.btime == 0 && g.winc == 0 && g.binc == 0,
            g.movestogo == 0 && g.movetime == 0,
            g.depth == crate::search::MAX_PLY,
            g.nodes == u64::MAX,
            !g.infinite && !g.ponder,
            g.searchmoves@.len() == 0,
    {
        GoParams {
            wtime: 0,
            btime: 0,
            winc: 0,
            binc: 0,
            movestogo: 0,
            movetime: 0,
            depth: crate::search::MAX_PLY,
            nodes: u64::MAX,
            infinite: false,
            ponder: false,
            searchmoves: Vec::new(),
        }
    }
}

/// One protocol command, parsed from a line of text.
pub enum Command {
    Uci,
    IsReady,
    NewGame,
    Stop,
    PonderHit,
    Quit,
    SetOption { name: String, value: String },
    SetPosition { startpos: bool, fen: String, moves: Vec<String> },
    Go { params: GoParams },
    Unknown,
}

/// Parses one command line. A malformed line yields `Unknown`, which
/// the caller reports and ignores: the protocol continues.
pub fn parse_command(line: &str) -> (c: Command)
    ensures
        line@ == "uci"@ ==> c is Uci,
        line@ == "isready"@ ==> c is IsReady,
        line@ == "ucinewgame"@ ==> c is NewGame,
        line@ == "stop"@ ==> c is Stop,
        line@ == "ponderhit"@ ==> c is PonderHit,
        line@ == "quit"@ ==> c is Quit,
{
    proof {
        reveal_strlit("uci");
        reveal_strlit("isready");
        reveal_strlit("ucinewgame");
        reveal_strlit("stop");
        reveal_strlit("ponderhit");
        reveal_strlit("quit");
        assert("uci"@.len() == 3);
        assert("isready"@.len() == 7);
        assert("ucinewgame"@.len() == 10);
        assert("stop"@.len() == 4);
        assert("ponderhit"@.len() == 9);
        assert("quit"@.len() == 4);
        assert("stop"@[0] != "quit"@[0]);
    }
    if str_eq(line, "uci") {
        return Command::Uci;
    }
    if str_eq(line, "isready") {
        return Command::IsReady;
    }
    if str_eq(line, "ucinewgame") {
        return Command::NewGame;
    }
    if str_eq(line, "stop") {
        return Command::Stop;
    }
    if str_eq(line, "ponderhit") {
        return Command::PonderHit;
    }
    if str_eq(line, "quit") {
        return Command::Quit;
    }
    let toks = tokenize(line);
    if toks.len() == 0 {
        return Command::Unknown;
    }
    let head = &toks[0];
    if str_eq(head.as_str(), "uci") {
        return Command::Uci;
    }
    if str_eq(head.as_str(), "isready") {
        return Command::IsReady;
    }
    if str_eq(head.as_str(), "ucinewgame") {
        return Command::NewGame;
    }
    if str_eq(head.as_str(), "stop") {
        return Command::Stop;
    }
    if str_eq(head.as_str(), "ponderhit") {
        return Command::PonderHit;
    }
    if str_eq(head.as_str(), "quit") {
        return Command::Quit;
    }
    if str_eq(head.as_str(), "setoption") {
        return parse_setoption(&toks);
    }
    if str_eq(head.as_str(), "position") {
        return parse_position(&toks);
    }
    if str_eq(head.as_str(), "go") {
        return parse_go(&toks);
    }
    Command::Unknown
}

fn parse_setoption(toks: &Vec<String>) -> (c: Command)
{
    // setoption name <N...> value <V...>
    let mut name = String::new();
    let mut value = String::new();
    let mut in_value = false;
    let mut i: usize = 1;
    while i < toks.len()
        invariant
            1 <= i,
        decreases toks@.len() - i,
    {
        let t = &toks[i];
        if str_eq(t.as_str(), "name") && !in_value {
        } else if str_eq(t.as_str(), "value") {
            in_value = true;
        } else {
            if in_value {
                if value.as_str().unicode_len() > 0 {
                    value.append(" ");
                }
                value.append(t.as_str());
            } else {
                if name.as_str().unicode_len() > 0 {
                    name.append(" ");
                }
                name.append(t.as_str());
            }
        }
        i = i + 1;
    }
    Command::SetOption { name, value }
}

fn parse_position(toks: &Vec<String>) -> (c: Command)
{
    let mut startpos = false;
    let mut fen = String::new();
    let mut moves: Vec<String> = Vec::new();
    let mut in_moves = false;
    let mut in_fen = false;
    let mut i: usize = 1;
    while i < toks.len()
        invariant
            1 <= i,
        decreases toks@.len() - i,
    {
        let t = &toks[i];
        if str_eq(t.as_str(), "startpos") {
            startpos = true;
            in_fen = false;
        } else if str_eq(t.as_str(), "fen") {
            in_fen = true;
        } else if str_eq(t.as_str(), "moves") {
            in_moves = true;
            in_fen = false;
        } else if in_moves {
            moves.push(t.as_str().to_owned());
        } else if in_fen {
            if fen.as_str().unicode_len() > 0 {
                fen.append(" ");
            }
            fen.append(t.as_str());
        }
        i = i + 1;
    }
    Command::SetPosition { startpos, fen, moves }
}

fn parse_go(toks: &Vec<String>) -> (c: Command)
{
    let mut g = GoParams::new();
    let mut in_searchmoves = false;
    let mut i: usize = 1;
    while i < toks.len()
        invariant
            1 <= i,
        decreases toks@.len() - i,
    {
        let t = &toks[i];
        if str_eq(t.as_str(), "wtime") && i + 1 < toks.len() {
            g.wtime = parse_u32_str(&toks[i + 1]);
            i = i + 1;
            in_searchmoves = false;
        } else if str_eq(t.as_str(), "btime") && i + 1 < toks.len() {
            g.btime = parse_u32_str(&toks[i + 1]);
            i = i + 1;
            in_searchmoves = false;
        } else if str_eq(t.as_str(), "winc") && i + 1 < toks.len() {
            g.winc = parse_u32_str(&toks[i + 1]);
            i = i + 1;
            in_searchmoves = false;
        } else if str_eq(t.as_str(), "binc") && i + 1 < toks.len() {
            g.binc = parse_u32_str(&toks[i + 1]);
            i = i + 1;
            in_searchmoves = false;
        } else if str_eq(t.as_str(), "movestogo") && i + 1 < toks.len() {
            g.movestogo = parse_u32_str(&toks[i + 1]);
            i = i + 1;
            in_searchmoves = false;
        } else if str_eq(t.as_str(), "movetime") && i + 1 < toks.len() {
            g.movetime = parse_u32_str(&toks[i + 1]);
            i = i + 1;
            in_searchmoves = false;
        } else if str_eq(t.as_str(), "depth") && i + 1 < toks.len() {
            let d = parse_u32_str(&toks[i + 1]) as usize;
            g.depth = if d > crate::search::MAX_PLY {
                crate::search::MAX_PLY
            } else {
                d
            };
            i = i + 1;
            in_searchmoves = false;
        } else if str_eq(t.as_str(), "nodes") && i + 1 < toks.len() {
            g.nodes = parse_u64_str(&toks[i + 1]);
            i = i + 1;
            in_searchmoves = false;
        } else if str_eq(t.as_str(), "infinite") {
            g.infinite = true;
            in_searchmoves = false;
        } else if str_eq(t.as_str(), "ponder") {
            g.ponder = true;
            in_searchmoves = false;
        } else if str_eq(t.as_str(), "searchmoves") {
            in_searchmoves = true;
        } else if in_searchmoves {
            g.searchmoves.push(t.as_str().to_owned());
        }
        i = i + 1;
    }
    Command::Go { params: g }
}

/// Finds the legal move written in coordinate notation, if any: an
/// unknown or illegal name is rejected and the position unchanged.
pub fn parse_move(pos: &Position, tb: &Tables, txt: &str) -> (r: Option<Move>)
    requires
        pos.wf(),
        tb.wf(),
{
    let legal = crate::movegen::legal_moves(pos, tb);
    let mut i: usize = 0;
    while i < legal.len()
        invariant
            i <= legal@.len(),
        decreases legal@.len() - i,
    {
        let name = move_to_str(legal[i]);
        if str_eq(name.as_str(), txt) {
            return Some(legal[i]);
        }
        i = i + 1;
    }
    None
}

/// The engine state after an external command: `stop` always moves to
/// STOPPING; `ponderhit` turns pondering into searching and is ignored
/// in any other state.
pub fn state_after_command(state: usize, is_stop: bool, is_ponderhit: bool) -> (r: usize)
    ensures
        is_stop ==> r == STOPPING_STATE,
        !is_stop && is_ponderhit && state == PONDERING_STATE ==> r == SEARCHING_STATE,
        !is_stop && !(is_ponderhit && state == PONDERING_STATE) ==> r == state,
{
    if is_stop {
        STOPPING_STATE
    } else if is_ponderhit && state == PONDERING_STATE {
        SEARCHING_STATE
    } else {
        state
    }
}

} // verus!
