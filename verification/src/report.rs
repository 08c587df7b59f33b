//! The breakdown report: a header, one line per label, a closing line with
//! the total and the throughput, and a separator.
use crate::ledger::lemma_cleared;
use crate::ledger::Ledger;
use crate::stopwatch::StopWatch;
use crate::text::decimal;
use crate::text::decimal_text;
use crate::text::hundredths;
use crate::text::hundredths_text;
use crate::text::repeat;
use crate::text::repeated;
use crate::text::rounded_div;
use crate::text::rounded_quotient;
use crate::text::tenths;
use crate::text::tenths_text;
use vstd::prelude::*;
use vstd::string::*;
use vstd::utf8::encode_utf8;

verus! {

/// The whole milliseconds in a number of nanoseconds.
pub open spec fn millis(nanos: nat) -> nat {
    nanos / 1_000_000
}

/// Whether `ms` is strictly more than ten percent of `total_ms`.
pub open spec fn dominates(ms: nat, total_ms: nat) -> bool {
    ms * 100 > 10 * total_ms
}

/// The share of `ms` in `total_ms` as a percentage with one decimal place.
/// The figure is rounded on the exact quotient, a tie to the even figure.
/// This departs from binary floating-point arithmetic, in which most ties
/// are not exact and the last digit can come out as the neighbouring one:
/// for 1 of 2000 this gives `0.0`, where double precision gives `0.1`.
/// Of a total of zero no share can be told: it reads `NaN`, or `inf` for a
/// part that is not zero, as a division in floating point would.
pub open spec fn percent_text(ms: nat, total_ms: nat) -> Seq<char> {
    if total_ms != 0 {
        tenths_text(rounded_div(ms * 1000, total_ms))
    } else if ms == 0 {
        "NaN"@
    } else {
        "inf"@
    }
}

/// The number of units per second, with two decimal places, where `n` units
/// took `total_ms` milliseconds. The figure is rounded on the exact quotient,
/// a tie to the even figure. This departs from binary floating-point
/// arithmetic, in which most ties are not exact and the last digit can come
/// out as the neighbouring one. Where the units took no time it reads `inf`,
/// or `NaN` for no units, as a division in floating point would.
pub open spec fn rate_text(n: nat, total_ms: nat) -> Seq<char> {
    if total_ms != 0 {
        hundredths_text(rounded_div(n * 100_000, total_ms))
    } else if n == 0 {
        "NaN"@
    } else {
        "inf"@
    }
}

/// `text` between the terminal's codes for bright yellow and for plain, or
/// `text` as it is where `on` is false.
pub open spec fn highlighted(text: Seq<char>, on: bool) -> Seq<char> {
    if on {
        "\x1B[93m"@ + text + "\x1B[0m"@
    } else {
        text
    }
}

/// The header line, not yet highlighted.
pub open spec fn header_text(n: nat, unit: Seq<char>) -> Seq<char> {
    "%%%%%%%%%%%%% Breakdown of "@ + decimal_text(n) + " "@ + unit + " %%%%%%%%%%%%%\n"@
}

/// The line of one label, not yet highlighted.
pub open spec fn line_text(label: Seq<char>, ms: nat, total_ms: nat) -> Seq<char> {
    "> "@ + label + " "@ + decimal_text(ms) + "ms "@ + percent_text(ms, total_ms) + "%\n"@
}

/// The lines of the first `upto` labels, each highlighted where its label
/// took more than ten percent of the total.
pub open spec fn lines_text(
    labels: Seq<Seq<char>>,
    spent: Seq<nat>,
    total_ms: nat,
    upto: nat,
) -> Seq<char>
    decreases upto,
{
    if upto == 0 {
        Seq::empty()
    } else {
        let ms = millis(spent[upto - 1]);
        lines_text(labels, spent, total_ms, (upto - 1) as nat) + highlighted(
            line_text(labels[upto - 1], ms, total_ms),
            dominates(ms, total_ms),
        )
    }
}

/// The closing line: the total and the throughput.
pub open spec fn footer_text(n: nat, unit: Seq<char>, total_ms: nat) -> Seq<char> {
    "finished in "@ + decimal_text(total_ms) + "ms ("@ + rate_text(n, total_ms) + " "@ + unit
        + " per second)\n"@
}

/// The length of `text` in bytes of UTF-8, as a machine word.
pub open spec fn byte_len(text: Seq<char>) -> nat {
    encode_utf8(text).len() as usize as nat
}

/// The number of marks in the separator under a header of `header_bytes`
/// bytes: ten fewer, and at least 26.
pub open spec fn separator_len(header_bytes: nat) -> nat {
    if header_bytes - 10 > 26 {
        (header_bytes - 10) as nat
    } else {
        26
    }
}

/// The whole report on a ledger, for `n` units named `unit`: the highlighted
/// header, the labels' lines in first-ticked order, the closing line and the
/// separator, which has no line end.
pub open spec fn report_text(ledger: Ledger, n: nat, unit: Seq<char>) -> Seq<char> {
    let total_ms = millis(ledger.total());
    let top = highlighted(header_text(n, unit), true);
    top + lines_text(ledger.labels, ledger.spent, total_ms, ledger.labels.len()) + footer_text(
        n,
        unit,
        total_ms,
    ) + repeated("%"@, separator_len(byte_len(top)))
}

/// Tells whether a label that took `ms` of `total_ms` milliseconds took
/// strictly more than ten percent of them.
pub fn exceeds_tenth(ms: u128, total_ms: u128) -> (over: bool)
    ensures
        over == dominates(ms as nat, total_ms as nat),
{
    ms > total_ms / 10
}

/// Writes a share as a percentage.
pub fn percent(ms: u128, total_ms: u128) -> (r: String)
    requires
        ms * 1000 <= u128::MAX,
    ensures
        r@ == percent_text(ms as nat, total_ms as nat),
{
    if total_ms != 0 {
        tenths(rounded_quotient(ms * 1000, total_ms))
    } else if ms == 0 {
        String::from_str("NaN")
    } else {
        String::from_str("inf")
    }
}

/// Writes a throughput.
pub fn rate(n: u32, total_ms: u128) -> (r: String)
    ensures
        r@ == rate_text(n as nat, total_ms as nat),
{
    if total_ms != 0 {
        let scaled: u128 = (n as u128) * 100_000;
        hundredths(rounded_quotient(scaled, total_ms))
    } else if n == 0 {
        String::from_str("NaN")
    } else {
        String::from_str("inf")
    }
}

impl StopWatch {
    /// Wraps `s` in the terminal's highlight codes where `b` holds, and
    /// hands it back as it is where not.
    pub fn highlight_if(s: &str, b: bool) -> (r: String)
        ensures
            r@ == highlighted(s@, b),
    {
        if b {
            let mut marked = String::from_str("\x1B[93m");
            marked.append(s);
            marked.append("\x1B[0m");
            marked
        } else {
            String::from_str(s)
        }
    }
}

/// Writes the header line.
pub fn header(n: u32, unit: &str) -> (r: String)
    ensures
        r@ == header_text(n as nat, unit@),
{
    let mut s = String::from_str("%%%%%%%%%%%%% Breakdown of ");
    let count = decimal(n as u128);
    s.append(count.as_str());
    s.append(" ");
    s.append(unit);
    s.append(" %%%%%%%%%%%%%\n");
    s
}

/// Writes the line of one label.
pub fn label_line(label: &str, ms: u128, total_ms: u128) -> (r: String)
    requires
        ms * 1000 <= u128::MAX,
    ensures
        r@ == line_text(label@, ms as nat, total_ms as nat),
{
    let mut s = String::from_str("> ");
    s.append(label);
    s.append(" ");
    let took = decimal(ms);
    s.append(took.as_str());
    s.append("ms ");
    let share = percent(ms, total_ms);
    s.append(share.as_str());
    s.append("%\n");
    s
}

/// Writes the closing line.
pub fn footer(n: u32, unit: &str, total_ms: u128) -> (r: String)
    ensures
        r@ == footer_text(n as nat, unit@, total_ms as nat),
{
    let mut s = String::from_str("finished in ");
    let took = decimal(total_ms);
    s.append(took.as_str());
    s.append("ms (");
    let speed = rate(n, total_ms);
    s.append(speed.as_str());
    s.append(" ");
    s.append(unit);
    s.append(" per second)\n");
    s
}

/// Writes the separator that closes a report whose highlighted header is
/// `top`.
pub fn separator(top: &str) -> (r: String)
    ensures
        r@ == repeated("%"@, separator_len(byte_len(top@))),
{
    let bytes: usize = top.len();
    let marks: usize = if bytes > 36 {
        bytes - 10
    } else {
        26
    };
    repeat("%", marks)
}

/// The lines of the first `upto` labels where no label has a duration and
/// nothing is charged: each shows zero milliseconds, no share, and is not
/// highlighted.
pub open spec fn idle_lines_text(labels: Seq<Seq<char>>, upto: nat) -> Seq<char>
    decreases upto,
{
    if upto == 0 {
        Seq::empty()
    } else {
        idle_lines_text(labels, (upto - 1) as nat) + line_text(labels[upto - 1], 0, 0)
    }
}

/// Where every duration is zero, every line is an idle one.
pub proof fn lemma_idle_lines(labels: Seq<Seq<char>>, spent: Seq<nat>, upto: nat)
    requires
        upto <= spent.len(),
        forall|i: int| 0 <= i < spent.len() ==> spent[i] == 0,
    ensures
        lines_text(labels, spent, 0, upto) == idle_lines_text(labels, upto),
    decreases upto,
{
    if upto > 0 {
        lemma_idle_lines(labels, spent, (upto - 1) as nat);
    }
}

/// After a reset the report shows a total of zero milliseconds, and for each
/// label that is left a line with zero milliseconds that is not highlighted.
pub proof fn lemma_reset_reports_zero(ledger: Ledger, now: nat, n: nat, unit: Seq<char>)
    requires
        ledger.wf(),
        ledger.enabled,
    ensures
        ledger.cleared(now).wf(),
        ledger.cleared(now).total() == 0,
        report_text(ledger.cleared(now), n, unit) == highlighted(header_text(n, unit), true)
            + idle_lines_text(ledger.labels, ledger.labels.len()) + footer_text(n, unit, 0)
            + repeated("%"@, separator_len(byte_len(highlighted(header_text(n, unit), true)))),
{
    let after = ledger.cleared(now);
    lemma_cleared(ledger, now);
    lemma_idle_lines(after.labels, after.spent, after.labels.len());
}

/// A share of exactly ten percent is not highlighted, and any share above
/// it is.
pub proof fn lemma_highlight_is_strict(ms: nat, total_ms: nat)
    ensures
        ms * 10 == total_ms ==> !dominates(ms, total_ms),
        ms * 10 > total_ms ==> dominates(ms, total_ms),
        ms * 10 < total_ms ==> !dominates(ms, total_ms),
{
}

} // verus!
