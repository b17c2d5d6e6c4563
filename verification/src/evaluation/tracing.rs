//! Recording of evaluation terms.
use crate::arith::{lemma_sum_step, sum_of};
use crate::text::{
    append_hundredths, append_left_padded, append_right_padded, hundredths, pad_left, pad_right,
};
use vstd::prelude::*;
use vstd::string::StringExecFns;

verus! {

/// A recorded term: its name, White's share and Black's share.
pub type TraceRow = (Seq<char>, int, int);

/// Receives the terms of an evaluation as they are computed.
pub trait EvaluationTracer {
    /// The terms recorded so far.
    spec fn recorded(&self) -> Seq<TraceRow>;

    /// Whether terms are kept.
    spec fn active(&self) -> bool;

    fn record(&mut self, term: &str, white: i32, black: i32)
        ensures
            final(self).active() == old(self).active(),
            final(self).recorded() == traced(
                old(self).recorded(),
                old(self).active(),
                seq![(term@, white as int, black as int)],
            ),
    ;

    fn is_active(&self) -> (r: bool)
        ensures
            r == self.active(),
    ;
}

/// What a tracer holds after `rows` were handed to it.
pub open spec fn traced(before: Seq<TraceRow>, active: bool, rows: Seq<TraceRow>) -> Seq<TraceRow> {
    if active {
        before + rows
    } else {
        before
    }
}

/// Rows handed over in two steps are as rows handed over at once.
pub proof fn lemma_traced_twice(
    before: Seq<TraceRow>,
    active: bool,
    first: Seq<TraceRow>,
    second: Seq<TraceRow>,
)
    ensures
        traced(traced(before, active, first), active, second) == traced(
            before,
            active,
            first + second,
        ),
{
    assert(before + first + second =~= before + (first + second));
}

/// Drops every term.
pub struct NoTrace;

impl EvaluationTracer for NoTrace {
    open spec fn recorded(&self) -> Seq<TraceRow> {
        Seq::empty()
    }

    open spec fn active(&self) -> bool {
        false
    }

    fn record(&mut self, _term: &str, _white: i32, _black: i32) {
    }

    fn is_active(&self) -> bool {
        false
    }
}

/// Keeps every term.
#[derive(Debug, Clone)]
pub struct ActiveTrace {
    pub rows: Vec<(String, i32, i32)>,
}

/// The rows of a trace as plain values.
pub open spec fn rows_view(rows: Seq<(String, i32, i32)>) -> Seq<TraceRow> {
    rows.map_values(|r: (String, i32, i32)| (r.0@, r.1 as int, r.2 as int))
}

impl Default for ActiveTrace {
    fn default() -> (r: ActiveTrace)
        ensures
            r.rows@.len() == 0,
            r.recorded() == Seq::<TraceRow>::empty(),
    {
        ActiveTrace { rows: Vec::new() }
    }
}

impl EvaluationTracer for ActiveTrace {
    open spec fn recorded(&self) -> Seq<TraceRow> {
        rows_view(self.rows@)
    }

    open spec fn active(&self) -> bool {
        true
    }

    fn record(&mut self, term: &str, white: i32, black: i32) {
        self.rows.push((term.to_owned(), white, black));
        assert(self.recorded() =~= old(self).recorded() + seq![
            (term@, white as int, black as int),
        ]);
    }

    fn is_active(&self) -> bool {
        true
    }
}

/// One row of the table: a term, both sides' shares and their difference, in
/// pawns.
pub open spec fn table_row(term: Seq<char>, white: int, black: int) -> Seq<char> {
    pad_right(term, 25) + " | "@ + pad_left(hundredths(white), 10) + " | "@ + pad_left(
        hundredths(black),
        10,
    ) + " | "@ + pad_left(hundredths(white - black), 10)
}

fn format_row(term: &str, white: i64, black: i64) -> (r: String)
    requires
        i64::MIN <= white - black <= i64::MAX,
    ensures
        r@ == table_row(term@, white as int, black as int),
{
    let mut w = String::new();
    append_hundredths(&mut w, white);
    let mut b = String::new();
    append_hundredths(&mut b, black);
    let mut d = String::new();
    append_hundredths(&mut d, white - black);
    assert(w@ =~= hundredths(white as int));
    assert(b@ =~= hundredths(black as int));
    assert(d@ =~= hundredths(white - black));
    let mut out = String::new();
    append_right_padded(&mut out, term, 25);
    out.append(" | ");
    append_left_padded(&mut out, w.as_str(), 10);
    out.append(" | ");
    append_left_padded(&mut out, b.as_str(), 10);
    out.append(" | ");
    append_left_padded(&mut out, d.as_str(), 10);
    assert(out@ =~= table_row(term@, white as int, black as int));
    out
}

pub open spec fn white_share() -> spec_fn((String, i32, i32)) -> int {
    |r: (String, i32, i32)| r.1 as int
}

pub open spec fn black_share() -> spec_fn((String, i32, i32)) -> int {
    |r: (String, i32, i32)| r.2 as int
}

impl ActiveTrace {
    /// The recorded terms as rows of a table, and a row of totals.
    pub fn table(&self) -> (r: Vec<String>)
        requires
            self.rows@.len() <= i32::MAX,
        ensures
            r@.len() == self.rows@.len() + 1,
            forall|i: int|
                0 <= i < self.rows@.len() ==> (#[trigger] r@[i])@ == table_row(
                    self.rows@[i].0@,
                    self.rows@[i].1 as int,
                    self.rows@[i].2 as int,
                ),
            r@.last()@ == table_row(
                "TOTAL"@,
                sum_of(self.rows@, white_share()),
                sum_of(self.rows@, black_share()),
            ),
    {
        let mut out: Vec<String> = Vec::new();
        let mut white: i64 = 0;
        let mut black: i64 = 0;
        let mut i: usize = 0;
        assert(self.rows@.take(0) =~= Seq::empty());
        while i < self.rows.len()
            invariant
                i <= self.rows@.len() <= i32::MAX,
                out@.len() == i,
                white == sum_of(self.rows@.take(i as int), white_share()),
                black == sum_of(self.rows@.take(i as int), black_share()),
                -0x8000_0000 * i <= white <= 0x7fff_ffff * i,
                -0x8000_0000 * i <= black <= 0x7fff_ffff * i,
                forall|k: int|
                    0 <= k < i ==> (#[trigger] out@[k])@ == table_row(
                        self.rows@[k].0@,
                        self.rows@[k].1 as int,
                        self.rows@[k].2 as int,
                    ),
            decreases self.rows@.len() - i,
        {
            let w: i64 = self.rows[i].1 as i64;
            let b: i64 = self.rows[i].2 as i64;
            proof {
                lemma_sum_step(self.rows@, i as int, white_share());
                lemma_sum_step(self.rows@, i as int, black_share());
            }
            white += w;
            black += b;
            out.push(format_row(self.rows[i].0.as_str(), w, b));
            i += 1;
        }
        assert(self.rows@.take(i as int) =~= self.rows@);
        out.push(format_row("TOTAL", white, black));
        out
    }
}

} // verus!
