//! The day-rotated log: its file name and the layout of its lines.

use vstd::prelude::*;
use crate::decimal::{padded, pow10, lemma_padded_len, lemma_padded_injective};
use crate::naming::lemma_split;
use crate::stamp::{LocalStamp, date_text, time_text, year_text, push_date, push_time};

verus! {

/// `logs/YYYY-MM-DD.log` for the day of the reading.
pub open spec fn log_file_text(st: LocalStamp) -> Seq<char> {
    seq!['l', 'o', 'g', 's', '/'] + date_text(st) + seq!['.', 'l', 'o', 'g']
}

/// `[YYYY-MM-DD][HH:MM:SS][target][LEVEL] message`.
pub open spec fn log_line_text(
    st: LocalStamp,
    target: Seq<char>,
    level: Seq<char>,
    message: Seq<char>,
) -> Seq<char> {
    seq!['['] + date_text(st) + seq![']', '['] + time_text(st) + seq![']', '['] + target + seq![
        ']',
        '[',
    ] + level + seq![']', ' '] + message
}

/// Readings of two different days, with years of four digits, go to two
/// different log files: one file per calendar day.
pub proof fn lemma_one_log_file_per_day(a: LocalStamp, b: LocalStamp)
    requires
        a.wf(),
        b.wf(),
        0 <= a.year <= 9999,
        0 <= b.year <= 9999,
        a.year != b.year || a.month != b.month || a.day != b.day,
    ensures
        log_file_text(a) != log_file_text(b),
{
    if log_file_text(a) == log_file_text(b) {
        assert(pow10(2) == 100 && pow10(4) == 10000) by {
            reveal_with_fuel(pow10, 5);
        }
        lemma_padded_len(a.year as nat, 4);
        lemma_padded_len(b.year as nat, 4);
        lemma_padded_len(a.month as nat, 2);
        lemma_padded_len(b.month as nat, 2);
        lemma_padded_len(a.day as nat, 2);
        lemma_padded_len(b.day as nat, 2);
        let pre = seq!['l', 'o', 'g', 's', '/'];
        let suf = seq!['.', 'l', 'o', 'g'];
        let ya = year_text(a.year as int);
        let yb = year_text(b.year as int);
        let ma = padded(a.month as nat, 2);
        let mb = padded(b.month as nat, 2);
        let da = padded(a.day as nat, 2);
        let db = padded(b.day as nat, 2);
        let dash = seq!['-'];
        assert(log_file_text(a) =~= pre + ya + dash + ma + dash + da + suf);
        assert(log_file_text(b) =~= pre + yb + dash + mb + dash + db + suf);
        lemma_split(pre + ya + dash + ma + dash + da, suf, pre + yb + dash + mb + dash + db, suf);
        lemma_split(pre + ya + dash + ma + dash, da, pre + yb + dash + mb + dash, db);
        lemma_split(pre + ya + dash + ma, dash, pre + yb + dash + mb, dash);
        lemma_split(pre + ya + dash, ma, pre + yb + dash, mb);
        lemma_split(pre + ya, dash, pre + yb, dash);
        lemma_split(pre, ya, pre, yb);
        lemma_padded_injective(a.year as nat, b.year as nat, 4);
        lemma_padded_injective(a.month as nat, b.month as nat, 2);
        lemma_padded_injective(a.day as nat, b.day as nat, 2);
    }
}

/// The path of the log file for the day of the reading.
pub fn log_file_name(st: &LocalStamp) -> (r: String)
    ensures
        r@ == log_file_text(*st),
{
    proof {
        reveal_strlit("logs/");
        reveal_strlit(".log");
    }
    let mut s = String::new();
    s.append("logs/");
    push_date(&mut s, st);
    s.append(".log");
    assert(s@ =~= log_file_text(*st));
    s
}

/// One line of the log, stamped with the reading.
pub fn log_line(st: &LocalStamp, target: &str, level: &str, message: &str) -> (r: String)
    requires
        st.wf(),
    ensures
        r@ == log_line_text(*st, target@, level@, message@),
{
    proof {
        reveal_strlit("[");
        reveal_strlit("][");
        reveal_strlit("] ");
    }
    let mut s = String::new();
    s.append("[");
    push_date(&mut s, st);
    s.append("][");
    push_time(&mut s, st);
    s.append("][");
    s.append(target);
    s.append("][");
    s.append(level);
    s.append("] ");
    s.append(message);
    assert(s@ =~= log_line_text(*st, target@, level@, message@));
    s
}

} // verus!
