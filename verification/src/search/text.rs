//! Scores, moves and search reports as text.
use crate::arith::tdiv;
use crate::moves::Move;
use crate::search::{PVLine, MATE_SCORE, MATE_VALUE};
use crate::text::{append_number, append_signed, decimal, signed_decimal};
use vstd::prelude::*;
use vstd::string::StringExecFns;

verus! {

/// A score in centipawns, or the number of moves to mate.
pub open spec fn score_text(score: int) -> Seq<char> {
    if score > MATE_SCORE {
        "mate "@ + signed_decimal(tdiv(MATE_VALUE - score + 1, 2))
    } else if score < -MATE_SCORE {
        "mate -"@ + signed_decimal(tdiv(MATE_VALUE + score + 1, 2))
    } else {
        "cp "@ + signed_decimal(score)
    }
}

pub fn format_score(score: i32) -> (r: String)
    ensures
        r@ == score_text(score as int),
{
    let mut out = String::new();
    if score > MATE_SCORE {
        out.append("mate ");
        append_signed(&mut out, ((MATE_VALUE - score + 1) / 2) as i64);
    } else if score < -MATE_SCORE {
        out.append("mate -");
        append_signed(&mut out, ((MATE_VALUE + score + 1) / 2) as i64);
    } else {
        out.append("cp ");
        append_signed(&mut out, score as i64);
    }
    assert(out@ =~= score_text(score as int));
    out
}

/// The code of a promotion.
pub open spec fn promotion_text(m: Move, codes: Seq<String>) -> Seq<char> {
    match m.promotion {
        Some(p) => codes[p.index_spec()]@,
        None => Seq::empty(),
    }
}

/// A move by its squares, with the code of the promotion.
pub open spec fn move_text(m: Move, codes: Seq<String>) -> Seq<char> {
    signed_decimal(m.from.x as int) + ","@ + signed_decimal(m.from.y as int) + "->"@
        + signed_decimal(m.to.x as int) + ","@ + signed_decimal(m.to.y as int) + promotion_text(
        m,
        codes,
    )
}

/// Moves one after the other, with spaces between.
pub open spec fn line_text(pv: Seq<Move>, codes: Seq<String>) -> Seq<char>
    decreases pv.len(),
{
    if pv.len() == 0 {
        Seq::empty()
    } else if pv.len() == 1 {
        move_text(pv[0], codes)
    } else {
        line_text(pv.drop_last(), codes) + " "@ + move_text(pv.last(), codes)
    }
}

fn append_move(out: &mut String, m: &Move, codes: &Vec<String>)
    requires
        codes@.len() >= 32,
    ensures
        final(out)@ == old(out)@ + move_text(*m, codes@),
{
    append_signed(out, m.from.x);
    out.append(",");
    append_signed(out, m.from.y);
    out.append("->");
    append_signed(out, m.to.x);
    out.append(",");
    append_signed(out, m.to.y);
    if let Some(p) = m.promotion {
        out.append(codes[p.index()].as_str());
    }
    assert(out@ =~= old(out)@ + move_text(*m, codes@));
}

/// A line as text. `codes` gives the code of each kind of piece, by its index.
pub fn format_pv_line(pv: &Vec<Move>, codes: &Vec<String>) -> (r: String)
    requires
        codes@.len() >= 32,
    ensures
        r@ == line_text(pv@, codes@),
{
    let mut out = String::new();
    let mut i: usize = 0;
    assert(out@ =~= line_text(pv@.take(0), codes@));
    while i < pv.len()
        invariant
            i <= pv@.len(),
            codes@.len() >= 32,
            out@ == line_text(pv@.take(i as int), codes@),
        decreases pv@.len() - i,
    {
        if i > 0 {
            out.append(" ");
        }
        append_move(&mut out, &pv[i], codes);
        proof {
            let t = pv@.take(i + 1);
            assert(t.drop_last() =~= pv@.take(i as int));
            assert(t.last() == pv@[i as int]);
            assert(out@ =~= line_text(t, codes@));
        }
        i += 1;
    }
    assert(pv@.take(i as int) =~= pv@);
    out
}

/// The figures of a search at one moment.
#[derive(Clone, Copy)]
pub struct Figures {
    pub depth: usize,
    pub seldepth: usize,
    pub nodes: u64,
    pub qnodes: u64,
    pub time_ms: u128,
    pub tt_fill: u32,
}

/// Nodes per second; zero before the first millisecond has passed.
pub open spec fn nodes_per_second(nodes: int, time_ms: int) -> int {
    if time_ms > 0 {
        nodes * 1000 / time_ms
    } else {
        0
    }
}

pub fn nps(nodes: u64, time_ms: u128) -> (r: u128)
    ensures
        r == nodes_per_second(nodes as int, time_ms as int),
{
    if time_ms > 0 {
        nodes as u128 * 1000 / time_ms
    } else {
        0
    }
}

/// The report of one line. The number of the line is left out where it is the
/// first.
pub open spec fn info_text(f: Figures, multipv: int, score: int, pv: Seq<char>) -> Seq<char> {
    "info depth "@ + decimal(f.depth as nat) + " seldepth "@ + decimal(f.seldepth as nat) + (
    if multipv > 1 {
        " multipv "@ + decimal(multipv as nat)
    } else {
        Seq::empty()
    }) + " score "@ + score_text(score) + " nodes "@ + decimal(f.nodes as nat) + " qnodes "@
        + decimal(f.qnodes as nat) + " nps "@ + decimal(
        nodes_per_second(f.nodes as int, f.time_ms as int) as nat,
    ) + " time "@ + decimal(f.time_ms as nat) + " hashfull "@ + decimal(f.tt_fill as nat) + " pv "@
        + pv
}

pub fn format_info(f: &Figures, multipv: usize, score: i32, pv: &String) -> (r: String)
    ensures
        r@ == info_text(*f, multipv as int, score as int, pv@),
{
    let mut out = String::new();
    out.append("info depth ");
    append_number(&mut out, f.depth as u128);
    out.append(" seldepth ");
    append_number(&mut out, f.seldepth as u128);
    if multipv > 1 {
        out.append(" multipv ");
        append_number(&mut out, multipv as u128);
    }
    out.append(" score ");
    out.append(format_score(score).as_str());
    out.append(" nodes ");
    append_number(&mut out, f.nodes as u128);
    out.append(" qnodes ");
    append_number(&mut out, f.qnodes as u128);
    out.append(" nps ");
    append_number(&mut out, nps(f.nodes, f.time_ms));
    out.append(" time ");
    append_number(&mut out, f.time_ms);
    out.append(" hashfull ");
    append_number(&mut out, f.tt_fill as u128);
    out.append(" pv ");
    out.append(pv.as_str());
    assert(out@ =~= info_text(*f, multipv as int, score as int, pv@));
    out
}

/// The heading of a report of several lines.
pub open spec fn heading_text(f: Figures) -> Seq<char> {
    "Depth "@ + decimal(f.depth as nat) + " (time "@ + decimal(f.time_ms as nat) + "ms, nodes "@
        + decimal(f.nodes as nat) + ", nps "@ + decimal(
        nodes_per_second(f.nodes as int, f.time_ms as int) as nat,
    ) + ", hashfull "@ + decimal(f.tt_fill as nat) + "‰)"@
}

pub fn format_heading(f: &Figures) -> (r: String)
    ensures
        r@ == heading_text(*f),
{
    let mut out = String::new();
    out.append("Depth ");
    append_number(&mut out, f.depth as u128);
    out.append(" (time ");
    append_number(&mut out, f.time_ms);
    out.append("ms, nodes ");
    append_number(&mut out, f.nodes as u128);
    out.append(", nps ");
    append_number(&mut out, nps(f.nodes, f.time_ms));
    out.append(", hashfull ");
    append_number(&mut out, f.tt_fill as u128);
    out.append("‰)");
    assert(out@ =~= heading_text(*f));
    out
}

/// One of several lines, with its number.
pub open spec fn numbered_text(number: int, line: PVLine, codes: Seq<String>) -> Seq<char> {
    "#"@ + decimal(number as nat) + " "@ + score_text(line.score as int) + " pv "@ + line_text(
        line.pv@,
        codes,
    )
}

pub fn format_numbered(number: usize, line: &PVLine, codes: &Vec<String>) -> (r: String)
    requires
        codes@.len() >= 32,
    ensures
        r@ == numbered_text(number as int, *line, codes@),
{
    let mut out = String::new();
    out.append("#");
    append_number(&mut out, number as u128);
    out.append(" ");
    out.append(format_score(line.score).as_str());
    out.append(" pv ");
    out.append(format_pv_line(&line.pv, codes).as_str());
    assert(out@ =~= numbered_text(number as int, *line, codes@));
    out
}

/// The report of several lines: nothing for none, else a heading and the lines
/// with their numbers.
pub fn format_multi_pv_depth(f: &Figures, lines: &Vec<PVLine>, codes: &Vec<String>) -> (r: Vec<
    String,
>)
    requires
        codes@.len() >= 32,
        lines@.len() < usize::MAX,
    ensures
        lines@.len() == 0 ==> r@.len() == 0,
        lines@.len() > 0 ==> {
            &&& r@.len() == lines@.len() + 1
            &&& r@[0]@ == heading_text(*f)
            &&& forall|i: int|
                0 <= i < lines@.len() ==> (#[trigger] r@[i + 1])@ == numbered_text(
                    i + 1,
                    lines@[i],
                    codes@,
                )
        },
{
    let mut out: Vec<String> = Vec::new();
    if lines.len() == 0 {
        return out;
    }
    out.push(format_heading(f));
    let mut i: usize = 0;
    while i < lines.len()
        invariant
            i <= lines@.len(),
            codes@.len() >= 32,
            lines@.len() < usize::MAX,
            out@.len() == i + 1,
            out@[0]@ == heading_text(*f),
            forall|k: int|
                0 <= k < i ==> (#[trigger] out@[k + 1])@ == numbered_text(
                    k + 1,
                    lines@[k],
                    codes@,
                ),
        decreases lines@.len() - i,
    {
        out.push(format_numbered(i + 1, &lines[i], codes));
        i += 1;
    }
    out
}

} // verus!
