//! The names given to converted files: date and time of the local clock,
//! milliseconds, a random alphanumeric tag and the running index.

use vstd::prelude::*;
use rand::Rng;
use crate::decimal::{
    decimal, padded, pow10, push_padded, digits_value, is_digit, all_digits, lemma_padded_len,
    lemma_padded_injective, lemma_padded_ends_with_decimal, lemma_padded_value,
    lemma_padded_digits, lemma_concat_digits,
};
use crate::stamp::{LocalStamp, compact_text, year_text, push_compact};

verus! {

/// The number of random characters in a name.
pub const TAG_LEN: usize = 5;

/// The width to which the index is zero-padded.
pub const INDEX_WIDTH: usize = 5;

/// An ASCII letter (either case) or digit.
pub open spec fn is_alnum(c: char) -> bool {
    ('A' <= c && c <= 'Z') || ('a' <= c && c <= 'z') || ('0' <= c && c <= '9')
}

pub open spec fn all_alnum(s: Seq<char>) -> bool {
    forall|i: int| 0 <= i < s.len() ==> #[trigger] is_alnum(s[i])
}

/// The name for a clock reading, a random tag and an index, without
/// extension: `YYYYMMDDHHMMSS`, three-digit milliseconds, the tag, and the
/// five-digit index.
pub open spec fn name_text(st: LocalStamp, tag: Seq<char>, index: nat) -> Seq<char> {
    compact_text(st) + padded(st.millis(), 3) + tag + padded(index, 5)
}

/// `s` ends with `t`.
pub open spec fn ends_with(s: Seq<char>, t: Seq<char>) -> bool {
    t.len() <= s.len() && s.subrange(s.len() - t.len(), s.len() as int) == t
}

/// The fixed layout of a name whose clock part has a fixed width: 17 digits
/// of date, time and milliseconds from position 0, the tag at 17..22, and
/// from 22 on the index zero-padded to five digits (more for a larger
/// index), which reads back as the index. Every character is an ASCII letter
/// or digit, so a name holds no separator.
pub open spec fn has_layout(name: Seq<char>, tag: Seq<char>, index: nat) -> bool {
    let p = padded(index, 5);
    &&& name.len() == 22 + p.len()
    &&& p.len() == if decimal(index).len() >= 5 {
        decimal(index).len()
    } else {
        5
    }
    &&& (index < 100000 ==> p.len() == 5)
    &&& all_digits(name.subrange(0, 17))
    &&& name.subrange(17, 22) == tag
    &&& name.subrange(22, name.len() as int) == p
    &&& all_digits(p)
    &&& digits_value(p) == index
    &&& all_alnum(name)
}

/// Two readings that show the same date, time and millisecond.
pub open spec fn same_reading(a: LocalStamp, b: LocalStamp) -> bool {
    &&& a.year == b.year
    &&& a.month == b.month
    &&& a.day == b.day
    &&& a.hour == b.hour
    &&& a.minute == b.minute
    &&& a.shown_second() == b.shown_second()
    &&& a.millis() == b.millis()
}

/// Relies on rand's `thread_rng` sampled with `Alphanumeric`: each sample is
/// one of the 62 ASCII letters and digits, and `take(n)` yields `n` of them.
#[verifier::external_body]
fn random_alphanumeric(n: usize) -> (r: String)
    ensures
        r@.len() == n,
        all_alnum(r@),
{
    rand::thread_rng().sample_iter(&rand::distributions::Alphanumeric).take(n).map(char::from).collect()
}

/// Builds the name for a clock reading, a tag and an index.
pub fn compose_name(st: &LocalStamp, tag: &str, index: u32) -> (r: String)
    requires
        st.wf(),
    ensures
        r@ == name_text(*st, tag@, index as nat),
{
    let mut s = String::new();
    push_compact(&mut s, st);
    push_padded(&mut s, st.nanosecond / 1_000_000, 3);
    s.append(tag);
    push_padded(&mut s, index, INDEX_WIDTH);
    assert(s@ =~= name_text(*st, tag@, index as nat));
    s
}

/// A fresh name for the file with the given index: the local clock now, a
/// random five-character alphanumeric tag, and the index zero-padded to five
/// digits at the end. For a year of four digits the name has the fixed
/// layout of `has_layout`.
pub fn generate_new_filename(index: u32) -> (r: String)
    ensures
        exists|st: LocalStamp, tag: Seq<char>|
            {
                &&& st.wf()
                &&& st.nanosecond < 1_000_000_000
                &&& tag.len() == TAG_LEN
                &&& all_alnum(tag)
                &&& r@ == name_text(st, tag, index as nat)
                &&& (0 <= st.year <= 9999 ==> has_layout(r@, tag, index as nat))
            },
        ends_with(r@, padded(index as nat, 5)),
        ends_with(r@, decimal(index as nat)),
{
    let st = LocalStamp::now();
    let tag = random_alphanumeric(TAG_LEN);
    let r = compose_name(&st, tag.as_str(), index);
    proof {
        lemma_name_ends_with_index(st, tag@, index as nat);
        if 0 <= st.year <= 9999 {
            lemma_name_layout(st, tag@, index as nat);
        }
        assert(0 <= st.year <= 9999 ==> has_layout(r@, tag@, index as nat));
    }
    r
}

/// The file name for the given index and extension: a fresh name, a dot,
/// and the extension.
pub fn new_file_name(index: u32, extension: &str) -> (r: String)
    ensures
        exists|st: LocalStamp, tag: Seq<char>|
            {
                &&& st.wf()
                &&& st.nanosecond < 1_000_000_000
                &&& tag.len() == TAG_LEN
                &&& all_alnum(tag)
                &&& r@ == name_text(st, tag, index as nat) + seq!['.'] + extension@
                &&& (0 <= st.year <= 9999 ==> has_layout(
                    name_text(st, tag, index as nat),
                    tag,
                    index as nat,
                ))
            },
{
    let mut r = generate_new_filename(index);
    let ghost base = r@;
    r.append(".");
    r.append(extension);
    proof {
        reveal_strlit(".");
        assert(r@ =~= base + seq!['.'] + extension@);
    }
    r
}

/// A name ends with its index zero-padded to five digits, and so with the
/// index's decimal text: an index of six or more digits is kept whole.
pub proof fn lemma_name_ends_with_index(st: LocalStamp, tag: Seq<char>, index: nat)
    ensures
        ends_with(name_text(st, tag, index), padded(index, 5)),
        ends_with(name_text(st, tag, index), decimal(index)),
        padded(index, 5).len() == if decimal(index).len() >= 5 {
            decimal(index).len()
        } else {
            5
        },
{
    let n = name_text(st, tag, index);
    let p = padded(index, 5);
    let d = decimal(index);
    let pre = compact_text(st) + padded(st.millis(), 3) + tag;
    assert(n =~= pre + p);
    assert(n.subrange(n.len() - p.len(), n.len() as int) =~= p);
    lemma_padded_ends_with_decimal(index, 5);
    assert(n.subrange(n.len() - d.len(), n.len() as int) =~= p.subrange(
        p.len() - d.len(),
        p.len() as int,
    ));
}

/// A name built from a regular reading and a five-character alphanumeric
/// tag has the fixed layout.
pub proof fn lemma_name_layout(st: LocalStamp, tag: Seq<char>, index: nat)
    requires
        st.is_regular(),
        tag.len() == TAG_LEN,
        all_alnum(tag),
    ensures
        has_layout(name_text(st, tag, index), tag, index),
{
    lemma_small_powers();
    lemma_padded_len(st.year as nat, 4);
    lemma_padded_len(st.month as nat, 2);
    lemma_padded_len(st.day as nat, 2);
    lemma_padded_len(st.hour as nat, 2);
    lemma_padded_len(st.minute as nat, 2);
    lemma_padded_len(st.shown_second(), 2);
    lemma_padded_len(st.millis(), 3);
    lemma_padded_digits(st.year as nat, 4);
    lemma_padded_digits(st.month as nat, 2);
    lemma_padded_digits(st.day as nat, 2);
    lemma_padded_digits(st.hour as nat, 2);
    lemma_padded_digits(st.minute as nat, 2);
    lemma_padded_digits(st.shown_second(), 2);
    lemma_padded_digits(st.millis(), 3);
    lemma_padded_digits(index, 5);
    lemma_padded_value(index, 5);
    lemma_name_ends_with_index(st, tag, index);
    if index < 100000 {
        lemma_padded_len(index, 5);
    }
    let y = padded(st.year as nat, 4);
    let mo = padded(st.month as nat, 2);
    let d = padded(st.day as nat, 2);
    let h = padded(st.hour as nat, 2);
    let mi = padded(st.minute as nat, 2);
    let se = padded(st.shown_second(), 2);
    let ms = padded(st.millis(), 3);
    lemma_concat_digits(y, mo);
    lemma_concat_digits(y + mo, d);
    lemma_concat_digits(y + mo + d, h);
    lemma_concat_digits(y + mo + d + h, mi);
    lemma_concat_digits(y + mo + d + h + mi, se);
    lemma_concat_digits(y + mo + d + h + mi + se, ms);
    let clock = y + mo + d + h + mi + se + ms;
    let p = padded(index, 5);
    let name = name_text(st, tag, index);
    assert(name =~= clock + tag + p);
    assert(clock.len() == 17);
    assert(name.subrange(0, 17) =~= clock);
    assert(name.subrange(17, 22) =~= tag);
    assert(name.subrange(22, name.len() as int) =~= p);
    assert forall|i: int| 0 <= i < name.len() implies #[trigger] is_alnum(name[i]) by {
        if i < 17 {
            assert(name[i] == clock[i]);
            assert(is_digit(clock[i]));
        } else if i < 22 {
            assert(name[i] == tag[i - 17]);
        } else {
            assert(name[i] == p[i - 22]);
            assert(is_digit(p[i - 22]));
        }
    }
}

/// Two equal concatenations whose left (or right) parts have equal lengths
/// have equal parts.
pub proof fn lemma_split<A>(a1: Seq<A>, b1: Seq<A>, a2: Seq<A>, b2: Seq<A>)
    requires
        a1 + b1 == a2 + b2,
        a1.len() == a2.len() || b1.len() == b2.len(),
    ensures
        a1 == a2,
        b1 == b2,
{
    assert(a1 =~= (a1 + b1).subrange(0, a1.len() as int));
    assert(a2 =~= (a2 + b2).subrange(0, a2.len() as int));
    assert(b1 =~= (a1 + b1).subrange(a1.len() as int, (a1 + b1).len() as int));
    assert(b2 =~= (a2 + b2).subrange(a2.len() as int, (a2 + b2).len() as int));
}

proof fn lemma_small_powers()
    ensures
        pow10(2) == 100,
        pow10(3) == 1000,
        pow10(4) == 10000,
        pow10(5) == 100000,
{
    reveal_with_fuel(pow10, 6);
}

/// Names built for the same index from two regular readings that differ in
/// their date, time or millisecond are different, whatever the tags: the
/// clock part of a name has a fixed width and is read back whole.
pub proof fn lemma_distinct_readings_distinct_names(
    a: LocalStamp,
    b: LocalStamp,
    tag_a: Seq<char>,
    tag_b: Seq<char>,
    index: nat,
)
    requires
        a.is_regular(),
        b.is_regular(),
        tag_a.len() == tag_b.len(),
        !same_reading(a, b),
    ensures
        name_text(a, tag_a, index) != name_text(b, tag_b, index),
{
    if name_text(a, tag_a, index) == name_text(b, tag_b, index) {
        lemma_small_powers();
        lemma_padded_len(a.year as nat, 4);
        lemma_padded_len(b.year as nat, 4);
        lemma_padded_len(a.month as nat, 2);
        lemma_padded_len(b.month as nat, 2);
        lemma_padded_len(a.day as nat, 2);
        lemma_padded_len(b.day as nat, 2);
        lemma_padded_len(a.hour as nat, 2);
        lemma_padded_len(b.hour as nat, 2);
        lemma_padded_len(a.minute as nat, 2);
        lemma_padded_len(b.minute as nat, 2);
        lemma_padded_len(a.shown_second(), 2);
        lemma_padded_len(b.shown_second(), 2);
        lemma_padded_len(a.millis(), 3);
        lemma_padded_len(b.millis(), 3);
        let ya = year_text(a.year as int);
        let yb = year_text(b.year as int);
        let ma = padded(a.month as nat, 2);
        let mb = padded(b.month as nat, 2);
        let da = padded(a.day as nat, 2);
        let db = padded(b.day as nat, 2);
        let ha = padded(a.hour as nat, 2);
        let hb = padded(b.hour as nat, 2);
        let ia = padded(a.minute as nat, 2);
        let ib = padded(b.minute as nat, 2);
        let sa = padded(a.shown_second(), 2);
        let sb = padded(b.shown_second(), 2);
        let la = padded(a.millis(), 3);
        let lb = padded(b.millis(), 3);
        let p = padded(index, 5);
        lemma_split(ya + ma + da + ha + ia + sa + la + tag_a, p, yb + mb + db + hb + ib + sb + lb + tag_b, p);
        lemma_split(ya + ma + da + ha + ia + sa + la, tag_a, yb + mb + db + hb + ib + sb + lb, tag_b);
        lemma_split(ya + ma + da + ha + ia + sa, la, yb + mb + db + hb + ib + sb, lb);
        lemma_split(ya + ma + da + ha + ia, sa, yb + mb + db + hb + ib, sb);
        lemma_split(ya + ma + da + ha, ia, yb + mb + db + hb, ib);
        lemma_split(ya + ma + da, ha, yb + mb + db, hb);
        lemma_split(ya + ma, da, yb + mb, db);
        lemma_split(ya, ma, yb, mb);
        lemma_padded_injective(a.year as nat, b.year as nat, 4);
        lemma_padded_injective(a.month as nat, b.month as nat, 2);
        lemma_padded_injective(a.day as nat, b.day as nat, 2);
        lemma_padded_injective(a.hour as nat, b.hour as nat, 2);
        lemma_padded_injective(a.minute as nat, b.minute as nat, 2);
        lemma_padded_injective(a.shown_second(), b.shown_second(), 2);
        lemma_padded_injective(a.millis(), b.millis(), 3);
    }
}

} // verus!
